//! The per-step engine: the spatial index, the interaction pass that
//! recomputes velocities from pairwise forces, and the integrator that
//! advances positions.
//!
//! Each step runs the integrator first, then rebuilds the spatial index from
//! the new positions, then runs the interaction pass against that one
//! snapshot — so a particle's displayed position always lags its force
//! computation by exactly one step.

use vstd::prelude::*;
use crate::config::POS_LIMIT;
use crate::family::spec_attraction;
use crate::fixed::div_trunc;
use crate::fixed::spec_add;
use crate::fixed::spec_div;
use crate::fixed::spec_mul;
use crate::fixed::fp_add;
use crate::fixed::fp_div;
use crate::fixed::fp_mul;
use crate::params::SimulationParameters;
use crate::params::params_wf;

verus! {

/// One particle: its immutable family index and its mutable position and
/// velocity, all in micro-units.
#[derive(Clone, Copy, PartialEq, Eq, Structural, Debug)]
pub struct Particle {
    pub family: usize,
    pub x: i64,
    pub y: i64,
    pub vx: i64,
    pub vy: i64,
}

/// A coordinate the engine accepts.
pub open spec fn coord_ok(x: int) -> bool {
    -(POS_LIMIT as int) <= x <= POS_LIMIT as int
}

/// The squared distance between two points.
pub open spec fn dist2(ax: int, ay: int, bx: int, by: int) -> int {
    (bx - ax) * (bx - ax) + (by - ay) * (by - ay)
}

/// The integer square root: the largest `r` with `r * r <= n`.
pub open spec fn sqrt_floor(n: nat) -> nat
    decreases n,
{
    if n == 0 {
        0
    } else {
        let s = sqrt_floor((n - 1) as nat);
        if (s + 1) * (s + 1) <= n {
            s + 1
        } else {
            s
        }
    }
}

/// `sqrt_floor` is exactly the rounded-down square root.
pub proof fn lemma_sqrt_floor_bounds(n: nat)
    ensures
        sqrt_floor(n) * sqrt_floor(n) <= n,
        n < (sqrt_floor(n) + 1) * (sqrt_floor(n) + 1),
    decreases n,
{
    if n > 0 {
        lemma_sqrt_floor_bounds((n - 1) as nat);
        let s = sqrt_floor((n - 1) as nat);
        assert(s * s <= n - 1);
        assert(n - 1 < (s + 1) * (s + 1));
        if (s + 1) * (s + 1) <= n {
            assert(sqrt_floor(n) == s + 1);
            assert(n < ((s + 1) + 1) * ((s + 1) + 1)) by (nonlinear_arith)
                requires
                    s >= 0,
                    n <= (n - 1) + 1,
                    (n - 1) < (s + 1) * (s + 1),
            ;
            assert((sqrt_floor(n) + 1) * (sqrt_floor(n) + 1) == ((s + 1) + 1) * (
            (s + 1) + 1)) by (nonlinear_arith)
                requires
                    sqrt_floor(n) == s + 1,
            ;
        } else {
            assert(sqrt_floor(n) == s);
        }
    } else {
        assert(n == 0);
        assert(sqrt_floor(n) == 0);
        assert(n < (0 + 1) * (0 + 1)) by (nonlinear_arith)
            requires
                n == 0,
        ;
    }
}

/// Any `r` whose square brackets `n` is its rounded-down square root.
pub proof fn lemma_sqrt_floor_unique(n: nat, r: nat)
    requires
        r * r <= n,
        n < (r + 1) * (r + 1),
    ensures
        r == sqrt_floor(n),
{
    let s = sqrt_floor(n);
    lemma_sqrt_floor_bounds(n);
    if r < s {
        assert(false) by (nonlinear_arith)
            requires
                r < s,
                s * s <= n,
                n < (r + 1) * (r + 1),
        ;
    }
    if s < r {
        assert(false) by (nonlinear_arith)
            requires
                s < r,
                r * r <= n,
                n < (s + 1) * (s + 1),
        ;
    }
}

/// The rounded-down square root, by bisection.
fn isqrt(n: u128) -> (r: u64)
    ensures
        r as nat == sqrt_floor(n as nat),
{
    if n == 0 {
        return 0;
    }
    let mut lo: u128 = 0;
    let mut hi: u128 = 0x1_0000_0000_0000_0000;
    proof {
        assert((n as int) < 0x1_0000_0000_0000_0000 * 0x1_0000_0000_0000_0000);
    }
    while lo + 1 < hi
        invariant
            lo < hi,
            hi <= 0x1_0000_0000_0000_0000,
            (lo as int) * (lo as int) <= n as int,
            (n as int) < (hi as int) * (hi as int),
        decreases hi - lo,
    {
        let mid: u128 = lo + (hi - lo) / 2;
        assert(lo < mid < hi);
        assert((mid as int) * (mid as int)
            < 0x1_0000_0000_0000_0000 * 0x1_0000_0000_0000_0000)
            by (nonlinear_arith)
            requires
                0 <= (mid as int) < 0x1_0000_0000_0000_0000,
        ;
        if mid * mid <= n {
            lo = mid;
        } else {
            hi = mid;
        }
    }
    proof {
        lemma_sqrt_floor_unique(n as nat, lo as nat);
    }
    lo as u64
}

/// The square of a magnitude equals the square of the signed value, and
/// fits the machine word when the value is within `2^62`.
proof fn lemma_abs_square(v: int, m: int)
    requires
        m == (if v < 0 {
            -v
        } else {
            v
        }),
        -0x4000000000000000 <= v <= 0x4000000000000000,
    ensures
        m * m == v * v,
        0 <= m * m <= 0x10000000000000000000000000000000,
{
    assert(m * m == v * v && 0 <= m * m
        <= 0x4000000000000000 * 0x4000000000000000) by (nonlinear_arith)
        requires
            m == (if v < 0 {
                -v
            } else {
                v
            }),
            -0x4000000000000000 <= v <= 0x4000000000000000,
    ;
}

/// True when `b` lies within `radius` of `a` (boundary included).
pub open spec fn within_radius(
    ax: int,
    ay: int,
    bx: int,
    by: int,
    radius: int,
) -> bool {
    dist2(ax, ay, bx, by) <= radius * radius
}

/// The indices, in increasing order, of the first `k` snapshot positions
/// within `radius` of the query point.
pub open spec fn in_range_upto(
    ps: Seq<(i64, i64)>,
    x: int,
    y: int,
    radius: int,
    k: int,
) -> Seq<usize>
    decreases k,
{
    if k <= 0 {
        Seq::empty()
    } else {
        let pre = in_range_upto(ps, x, y, radius, k - 1);
        if within_radius(x, y, ps[k - 1].0 as int, ps[k - 1].1 as int, radius) {
            pre.push((k - 1) as usize)
        } else {
            pre
        }
    }
}

/// An index is in the query answer exactly when its position is within the
/// radius.
pub proof fn lemma_in_range_upto(
    ps: Seq<(i64, i64)>,
    x: int,
    y: int,
    radius: int,
    k: int,
)
    requires
        0 <= k <= ps.len(),
        ps.len() <= usize::MAX as int,
    ensures
        forall|j: usize|
            in_range_upto(ps, x, y, radius, k).contains(j) <==> ((j as int) < k
                && within_radius(x, y, ps[j as int].0 as int,
                ps[j as int].1 as int, radius)),
    decreases k,
{
    if k > 0 {
        lemma_in_range_upto(ps, x, y, radius, k - 1);
        let pre = in_range_upto(ps, x, y, radius, k - 1);
        let cur = in_range_upto(ps, x, y, radius, k);
        let last = (k - 1) as usize;
        if within_radius(x, y, ps[k - 1].0 as int, ps[k - 1].1 as int, radius) {
            assert(cur == pre.push(last));
            assert forall|j: usize| cur.contains(j) implies ((j as int) < k
                && within_radius(x, y, ps[j as int].0 as int,
                ps[j as int].1 as int, radius)) by {
                vstd::seq_lib::lemma_seq_contains_after_push(pre, last, j);
            }
            assert forall|j: usize| ((j as int) < k && within_radius(x, y,
                ps[j as int].0 as int, ps[j as int].1 as int, radius)) implies
                cur.contains(j) by {
                vstd::seq_lib::lemma_seq_contains_after_push(pre, last, j);
            }
        }
    }
}

/// A snapshot of all particle positions, rebuilt once per step and then
/// queried read-only; `query_radius` answers exactly the indices within a
/// given radius.
pub struct SpatialIndex {
    pub positions: Vec<(i64, i64)>,
}

/// Every snapshot coordinate is one the engine accepts.
pub open spec fn index_wf(idx: SpatialIndex) -> bool {
    forall|j: int|
        0 <= j < idx.positions@.len() ==> coord_ok(idx.positions@[j].0 as int)
            && coord_ok(idx.positions@[j].1 as int)
}

impl SpatialIndex {
    /// Snapshots the current particle positions.
    pub fn rebuild(particles: &Vec<Particle>) -> (r: SpatialIndex)
        ensures
            r.positions@.len() == particles@.len(),
            forall|j: int|
                0 <= j < particles@.len() ==> r.positions@[j] == ((
                particles@[j].x, particles@[j].y)),
    {
        let mut positions: Vec<(i64, i64)> = Vec::new();
        let mut i: usize = 0;
        while i < particles.len()
            invariant
                i <= particles@.len(),
                positions@.len() == i as int,
                forall|j: int|
                    0 <= j < i as int ==> positions@[j] == ((particles@[j].x,
                    particles@[j].y)),
            decreases particles@.len() - i,
        {
            let p = &particles[i];
            positions.push((p.x, p.y));
            i = i + 1;
        }
        SpatialIndex { positions }
    }

    /// All indices whose snapshot position lies within `radius` of the
    /// query point, in increasing order. The queried particle itself is
    /// answered too; callers skip it.
    pub fn query_radius(&self, x: i64, y: i64, radius: i64) -> (r: Vec<usize>)
        requires
            index_wf(*self),
            coord_ok(x as int),
            coord_ok(y as int),
            0 <= radius,
        ensures
            r@ == in_range_upto(self.positions@, x as int, y as int,
                radius as int, self.positions@.len() as int),
    {
        let n = self.positions.len();
        let mut out: Vec<usize> = Vec::new();
        let mut i: usize = 0;
        while i < n
            invariant
                n == self.positions@.len(),
                i <= n,
                index_wf(*self),
                coord_ok(x as int),
                coord_ok(y as int),
                0 <= radius,
                out@ == in_range_upto(self.positions@, x as int, y as int,
                    radius as int, i as int),
            decreases n - i,
        {
            let p = self.positions[i];
            let dx: i128 = (p.0 as i128) - (x as i128);
            let dy: i128 = (p.1 as i128) - (y as i128);
            let dxm: u128 = if dx < 0 {
                (-dx) as u128
            } else {
                dx as u128
            };
            let dym: u128 = if dy < 0 {
                (-dy) as u128
            } else {
                dy as u128
            };
            proof {
                lemma_abs_square(dx as int, dxm as int);
                lemma_abs_square(dy as int, dym as int);
            }
            let d2: u128 = dxm * dxm + dym * dym;
            let rm: u128 = radius as u128;
            assert((rm as int) * (rm as int)
                <= 0x40000000000000000000000000000000) by (nonlinear_arith)
                requires
                    0 <= (rm as int) <= 0x8000000000000000,
            ;
            let r2: u128 = rm * rm;
            if d2 <= r2 {
                out.push(i);
            }
            i = i + 1;
        }
        out
    }
}

} // verus!

verus! {

/// The velocity change one neighbor causes: nothing for a degenerate pair
/// closer than one micro-unit, otherwise the unit direction toward the
/// neighbor times the attraction at the normalized distance.
pub open spec fn spec_pull(
    pi: Particle,
    pj: Particle,
    params: SimulationParameters,
    radius: int,
) -> (int, int) {
    let d2 = dist2(pi.x as int, pi.y as int, pj.x as int, pj.y as int);
    let len = sqrt_floor(d2 as nat) as int;
    if len == 0 {
        (0, 0)
    } else {
        let t = spec_div(len, radius);
        let f = spec_attraction(
            params.families@[pi.family as int],
            params.families@[pj.family as int],
            t,
        );
        (
            spec_mul(spec_div(pj.x - pi.x, len), f),
            spec_mul(spec_div(pj.y - pi.y, len), f),
        )
    }
}

/// Every particle's family is a valid index and its coordinates are ones
/// the engine accepts.
pub open spec fn state_wf(
    particles: Seq<Particle>,
    params: SimulationParameters,
) -> bool {
    &&& params_wf(params)
    &&& forall|i: int|
        0 <= i < particles.len() ==> (particles[i].family as int)
            < params.families@.len() && coord_ok(particles[i].x as int)
            && coord_ok(particles[i].y as int)
}

/// The position snapshot of a particle sequence.
pub open spec fn positions_of(particles: Seq<Particle>) -> Seq<(i64, i64)> {
    Seq::new(particles.len(), |k: int| (particles[k].x, particles[k].y))
}

/// The velocity of particle `i` after folding in the first `k` entries of
/// its neighbor list (the particle itself is skipped).
pub open spec fn vel_after_upto(
    particles: Seq<Particle>,
    i: int,
    neigh: Seq<usize>,
    params: SimulationParameters,
    radius: int,
    k: int,
) -> (int, int)
    decreases k,
{
    if k <= 0 {
        (particles[i].vx as int, particles[i].vy as int)
    } else {
        let prev = vel_after_upto(particles, i, neigh, params, radius, k - 1);
        let j = neigh[k - 1] as int;
        if j == i {
            prev
        } else {
            let c = spec_pull(particles[i], particles[j], params, radius);
            (spec_add(prev.0, c.0), spec_add(prev.1, c.1))
        }
    }
}

/// The velocity of particle `i` after one full interaction pass: its old
/// velocity plus the contribution of every neighbor within the radius.
pub open spec fn spec_new_velocity(
    particles: Seq<Particle>,
    i: int,
    params: SimulationParameters,
    radius: int,
) -> (int, int) {
    let neigh = in_range_upto(
        positions_of(particles),
        particles[i].x as int,
        particles[i].y as int,
        radius,
        particles.len() as int,
    );
    vel_after_upto(particles, i, neigh, params, radius, neigh.len() as int)
}

/// The length a neighbor pair's distance takes is bounded by the radius.
proof fn lemma_len_le_radius(d2: int, radius: int)
    requires
        0 <= d2,
        0 <= radius,
        d2 <= radius * radius,
    ensures
        sqrt_floor(d2 as nat) <= radius,
{
    lemma_sqrt_floor_bounds(d2 as nat);
    let s = sqrt_floor(d2 as nat) as int;
    if s > radius {
        assert(false) by (nonlinear_arith)
            requires
                s > radius,
                radius >= 0,
                s * s <= d2,
                d2 <= radius * radius,
        ;
    }
}

/// One neighbor's exact velocity contribution.
fn pull(
    pi: &Particle,
    pj: &Particle,
    params: &SimulationParameters,
    radius: i64,
) -> (c: (i64, i64))
    requires
        params_wf(*params),
        (pi.family as int) < params.families@.len(),
        (pj.family as int) < params.families@.len(),
        coord_ok(pi.x as int),
        coord_ok(pi.y as int),
        coord_ok(pj.x as int),
        coord_ok(pj.y as int),
        0 <= radius,
        within_radius(pi.x as int, pi.y as int, pj.x as int, pj.y as int,
            radius as int),
    ensures
        (c.0 as int, c.1 as int) == spec_pull(*pi, *pj, *params,
            radius as int),
{
    let dx: i128 = (pj.x as i128) - (pi.x as i128);
    let dy: i128 = (pj.y as i128) - (pi.y as i128);
    let dxm: u128 = if dx < 0 {
        (-dx) as u128
    } else {
        dx as u128
    };
    let dym: u128 = if dy < 0 {
        (-dy) as u128
    } else {
        dy as u128
    };
    proof {
        lemma_abs_square(dx as int, dxm as int);
        lemma_abs_square(dy as int, dym as int);
    }
    let d2: u128 = dxm * dxm + dym * dym;
    let len_lo = isqrt(d2);
    if len_lo == 0 {
        return (0, 0);
    }
    proof {
        lemma_len_le_radius(d2 as int, radius as int);
    }
    let len: i64 = len_lo as i64;
    let t = fp_div(len, radius);
    let fam_i = &params.families[pi.family];
    let fam_j = &params.families[pj.family];
    let f = fam_i.attraction(fam_j, t);
    let ux = fp_div(dx as i64, len);
    let uy = fp_div(dy as i64, len);
    (fp_mul(ux, f), fp_mul(uy, f))
}

/// The interaction pass: recomputes every particle's velocity from one
/// shared position snapshot; positions and families stay as they are, and
/// each particle's new velocity is exactly the fold of its neighbors'
/// contributions over its old velocity. The snapshot is taken from the
/// same population it is queried for, so every identity the query answers
/// resolves to a live particle; a particle never pulls on itself.
pub fn update_velocity(
    particles: &mut Vec<Particle>,
    params: &SimulationParameters,
    radius: i64,
)
    requires
        state_wf(old(particles)@, *params),
        0 <= radius,
    ensures
        final(particles)@.len() == old(particles)@.len(),
        forall|i: int|
            0 <= i < old(particles)@.len()
                ==> final(particles)@[i].family == old(particles)@[i].family
                && final(particles)@[i].x == old(particles)@[i].x
                && final(particles)@[i].y == old(particles)@[i].y
                && final(particles)@[i].vx as int == spec_new_velocity(
                old(particles)@,
                i,
                *params,
                radius as int,
            ).0 && final(particles)@[i].vy as int == spec_new_velocity(
                old(particles)@,
                i,
                *params,
                radius as int,
            ).1,
{
    let ghost orig = particles@;
    let index = SpatialIndex::rebuild(particles);
    proof {
        assert(index.positions@ =~= positions_of(orig));
    }
    let n = particles.len();
    let mut vels: Vec<(i64, i64)> = Vec::new();
    let mut i: usize = 0;
    while i < n
        invariant
            particles@ == orig,
            n == orig.len(),
            state_wf(orig, *params),
            0 <= radius,
            index.positions@ == positions_of(orig),
            index.positions@.len() == n,
            index_wf(index),
            i <= n,
            vels@.len() == i as int,
            forall|k: int|
                0 <= k < i as int ==> (vels@[k].0 as int, vels@[k].1 as int)
                    == spec_new_velocity(orig, k, *params, radius as int),
        decreases n - i,
    {
        let p = particles[i];
        let neigh = index.query_radius(p.x, p.y, radius);
        proof {
            lemma_in_range_upto(index.positions@, p.x as int, p.y as int,
                radius as int, n as int);
        }
        let mut vx = p.vx;
        let mut vy = p.vy;
        let mut k: usize = 0;
        while k < neigh.len()
            invariant
                particles@ == orig,
                n == orig.len(),
                state_wf(orig, *params),
                0 <= radius,
                index.positions@ == positions_of(orig),
                i < n,
                p == orig[i as int],
                neigh@ == in_range_upto(positions_of(orig), p.x as int,
                    p.y as int, radius as int, n as int),
                forall|j: usize|
                    neigh@.contains(j) <==> ((j as int) < n as int
                        && within_radius(p.x as int, p.y as int,
                        positions_of(orig)[j as int].0 as int,
                        positions_of(orig)[j as int].1 as int, radius as int)),
                k <= neigh@.len(),
                (vx as int, vy as int) == vel_after_upto(orig, i as int,
                    neigh@, *params, radius as int, k as int),
            decreases neigh@.len() - k,
        {
            let j = neigh[k];
            proof {
                assert(neigh@.contains(j)) by {
                    assert(neigh@[k as int] == j);
                }
            }
            if j != i {
                let c = pull(&p, &particles[j], params, radius);
                vx = fp_add(vx, c.0);
                vy = fp_add(vy, c.1);
            }
            k = k + 1;
        }
        vels.push((vx, vy));
        i = i + 1;
    }
    let mut i: usize = 0;
    while i < n
        invariant
            particles@.len() == orig.len(),
            n == orig.len(),
            vels@.len() == n,
            i <= n,
            forall|k: int| i as int <= k < n as int ==> particles@[k] == orig[k],
            forall|k: int|
                0 <= k < i as int ==> particles@[k].family == orig[k].family
                    && particles@[k].x == orig[k].x && particles@[k].y
                    == orig[k].y && particles@[k].vx == vels@[k].0
                    && particles@[k].vy == vels@[k].1,
            forall|k: int|
                0 <= k < n as int ==> (vels@[k].0 as int, vels@[k].1 as int)
                    == spec_new_velocity(orig, k, *params, radius as int),
        decreases n - i,
    {
        let v = vels[i];
        let p = particles[i];
        let ghost before = particles@;
        particles[i] = Particle { family: p.family, x: p.x, y: p.y, vx: v.0, vy: v.1 };
        proof {
            assert(particles@ == before.update(i as int, (Particle {
                family: p.family,
                x: p.x,
                y: p.y,
                vx: v.0,
                vy: v.1,
            })));
            assert(forall|k: int| 0 <= k < n as int && k != i as int ==> particles@[k] == before[k]);
            assert(particles@[i as int].vx == v.0);
        }
        i = i + 1;
    }
}

} // verus!

verus! {

/// The exact result of one integrator step on one particle: the position
/// advances by `velocity * dt`, everything else stays.
pub open spec fn spec_moved(p: Particle, dt: int) -> Particle {
    Particle {
        family: p.family,
        x: spec_add(p.x as int, spec_mul(p.vx as int, dt)) as i64,
        y: spec_add(p.y as int, spec_mul(p.vy as int, dt)) as i64,
        vx: p.vx,
        vy: p.vy,
    }
}

/// A whole state after one integrator step.
pub open spec fn spec_integrated(particles: Seq<Particle>, dt: int) -> Seq<
    Particle,
> {
    Seq::new(particles.len(), |i: int| spec_moved(particles[i], dt))
}

/// The integrator: advances every particle's position by its current
/// velocity over `dt`, touching nothing else. Particles do not interact
/// here.
pub fn apply_velocity(particles: &mut Vec<Particle>, dt: i64)
    ensures
        final(particles)@.len() == old(particles)@.len(),
        forall|i: int|
            0 <= i < old(particles)@.len() ==> final(particles)@[i]
                == spec_moved(old(particles)@[i], dt as int),
{
    let n = particles.len();
    let mut i: usize = 0;
    while i < n
        invariant
            n == old(particles)@.len(),
            particles@.len() == n,
            i <= n,
            forall|k: int|
                i as int <= k < n as int ==> particles@[k]
                    == old(particles)@[k],
            forall|k: int|
                0 <= k < i as int ==> particles@[k] == spec_moved(
                    old(particles)@[k],
                    dt as int,
                ),
        decreases n - i,
    {
        let p = particles[i];
        let ghost before = particles@;
        let nx = fp_add(p.x, fp_mul(p.vx, dt));
        let ny = fp_add(p.y, fp_mul(p.vy, dt));
        particles[i] = Particle { family: p.family, x: nx, y: ny, vx: p.vx, vy: p.vy };
        proof {
            assert(particles@ == before.update(i as int, (Particle {
                family: p.family,
                x: nx,
                y: ny,
                vx: p.vx,
                vy: p.vy,
            })));
            assert(nx as int == spec_moved(p, dt as int).x as int);
            assert(forall|k: int|
                0 <= k < n as int && k != i as int ==> particles@[k]
                    == before[k]);
        }
        i = i + 1;
    }
}

/// A particle every step accepts: coordinates and velocity within half the
/// engine's coordinate bound, so that the moved position is still one the
/// interaction pass takes.
pub open spec fn step_safe(p: Particle) -> bool {
    let h = (POS_LIMIT as int) / 2;
    &&& -h <= (p.x as int) && (p.x as int) <= h
    &&& -h <= (p.y as int) && (p.y as int) <= h
    &&& -h <= (p.vx as int) && (p.vx as int) <= h
    &&& -h <= (p.vy as int) && (p.vy as int) <= h
}

/// One full simulation step: the integrator moves every particle by the
/// previous step's velocity, then the interaction pass recomputes every
/// velocity against the freshly moved positions — so a position always
/// lags its force computation by one step.
pub fn step(
    particles: &mut Vec<Particle>,
    params: &SimulationParameters,
    radius: i64,
    dt: i64,
)
    requires
        params_wf(*params),
        0 <= radius,
        0 <= dt <= crate::fixed::SCALE,
        forall|i: int|
            0 <= i < old(particles)@.len() ==> step_safe(old(particles)@[i])
                && (old(particles)@[i].family as int)
                < params.families@.len(),
    ensures
        final(particles)@.len() == old(particles)@.len(),
        forall|i: int|
            0 <= i < old(particles)@.len()
                ==> final(particles)@[i].family == old(particles)@[i].family
                && final(particles)@[i].x == spec_moved(old(particles)@[i],
                dt as int).x && final(particles)@[i].y == spec_moved(
                old(particles)@[i],
                dt as int,
            ).y && final(particles)@[i].vx as int == spec_new_velocity(
                spec_integrated(old(particles)@, dt as int),
                i,
                *params,
                radius as int,
            ).0 && final(particles)@[i].vy as int == spec_new_velocity(
                spec_integrated(old(particles)@, dt as int),
                i,
                *params,
                radius as int,
            ).1,
{
    let ghost orig = particles@;
    apply_velocity(particles, dt);
    proof {
        assert(particles@ =~= spec_integrated(orig, dt as int));
        assert forall|i: int| 0 <= i < orig.len() implies coord_ok(
            particles@[i].x as int,
        ) && coord_ok(particles@[i].y as int) by {
            let p = orig[i];
            crate::fixed::lemma_mul_bounded_by(dt as int, p.vx as int);
            crate::fixed::lemma_mul_bounded_by(dt as int, p.vy as int);
            assert((p.vx as int) * (dt as int) == (dt as int) * (p.vx as int));
            assert((p.vy as int) * (dt as int) == (dt as int) * (p.vy as int));
        }
        assert(state_wf(particles@, *params));
    }
    update_velocity(particles, params, radius);
}

} // verus!

verus! {

/// Zero-distance guard: a neighbor closer than one micro-unit (in
/// particular one at the very same position) contributes nothing to a
/// particle's velocity.
pub proof fn lemma_coincident_no_pull(
    pi: Particle,
    pj: Particle,
    params: SimulationParameters,
    radius: int,
)
    requires
        dist2(pi.x as int, pi.y as int, pj.x as int, pj.y as int) == 0,
    ensures
        spec_pull(pi, pj, params, radius) == (0int, 0int),
{
    assert(sqrt_floor(0nat) == 0);
}

/// The fold over a neighbor list in which every entry is the particle
/// itself or a zero contribution leaves the velocity unchanged.
proof fn lemma_fold_keeps_velocity(
    particles: Seq<Particle>,
    i: int,
    neigh: Seq<usize>,
    params: SimulationParameters,
    radius: int,
    k: int,
)
    requires
        0 <= i < particles.len(),
        0 <= k <= neigh.len(),
        forall|m: int|
            0 <= m < neigh.len() ==> (neigh[m] as int == i || spec_pull(
                particles[i],
                particles[neigh[m] as int],
                params,
                radius,
            ) == (0int, 0int)),
    ensures
        vel_after_upto(particles, i, neigh, params, radius, k) == ((
        particles[i].vx as int, particles[i].vy as int)),
    decreases k,
{
    if k > 0 {
        lemma_fold_keeps_velocity(particles, i, neigh, params, radius, k - 1);
    }
}

/// With a zero interaction radius no particle's velocity ever changes in
/// the interaction pass: every in-range neighbor coincides with the
/// particle and the zero-distance guard drops it.
pub proof fn lemma_zero_radius_keeps_velocity(
    particles: Seq<Particle>,
    i: int,
    params: SimulationParameters,
)
    requires
        0 <= i < particles.len(),
        particles.len() <= usize::MAX as int,
    ensures
        spec_new_velocity(particles, i, params, 0) == ((particles[i].vx as int,
        particles[i].vy as int)),
{
    let ps = positions_of(particles);
    let n = particles.len() as int;
    let neigh = in_range_upto(ps, particles[i].x as int, particles[i].y as int,
        0, n);
    lemma_in_range_upto(ps, particles[i].x as int, particles[i].y as int, 0, n);
    assert forall|m: int| 0 <= m < neigh.len() implies (neigh[m] as int == i
        || spec_pull(particles[i], particles[neigh[m] as int], params, 0) == ((
    0int, 0int))) by {
        let j = neigh[m];
        assert(neigh.contains(j));
        let jx = ps[j as int].0 as int;
        let jy = ps[j as int].1 as int;
        let ix = particles[i].x as int;
        let iy = particles[i].y as int;
        assert((jx - ix) * (jx - ix) + (jy - iy) * (jy - iy) <= 0);
        assert((jx - ix) * (jx - ix) >= 0 && (jy - iy) * (jy - iy) >= 0)
            by (nonlinear_arith);
        assert(dist2(ix, iy, jx, jy) == 0);
        lemma_coincident_no_pull(particles[i], particles[j as int], params, 0);
    }
    lemma_fold_keeps_velocity(particles, i, neigh, params, 0, neigh.len() as int);
}

/// An isolated particle keeps its velocity: when no other particle lies
/// within the radius, the pass leaves it exactly as it was (there is no
/// self-interaction).
pub proof fn lemma_isolated_keeps_velocity(
    particles: Seq<Particle>,
    i: int,
    params: SimulationParameters,
    radius: int,
)
    requires
        0 <= i < particles.len(),
        particles.len() <= usize::MAX as int,
        forall|j: int|
            0 <= j < particles.len() && j != i ==> !within_radius(
                particles[i].x as int,
                particles[i].y as int,
                particles[j].x as int,
                particles[j].y as int,
                radius,
            ),
    ensures
        spec_new_velocity(particles, i, params, radius) == ((
        particles[i].vx as int, particles[i].vy as int)),
{
    let ps = positions_of(particles);
    let n = particles.len() as int;
    let neigh = in_range_upto(ps, particles[i].x as int, particles[i].y as int,
        radius, n);
    lemma_in_range_upto(ps, particles[i].x as int, particles[i].y as int,
        radius, n);
    assert forall|m: int| 0 <= m < neigh.len() implies (neigh[m] as int == i
        || spec_pull(particles[i], particles[neigh[m] as int], params, radius)
        == ((0int, 0int))) by {
        let j = neigh[m];
        assert(neigh.contains(j));
        assert(ps[j as int] == (particles[j as int].x, particles[j as int].y));
        assert(j as int == i);
    }
    lemma_fold_keeps_velocity(particles, i, neigh, params, radius,
        neigh.len() as int);
}

/// At the reference timestep, one integrator step shifts a coordinate by
/// exactly the velocity divided by sixty (rounded toward zero): the
/// displayed displacement is the previous step's velocity over one
/// sixtieth of a second.
pub proof fn lemma_timestep_shift(v: i64)
    ensures
        spec_mul(v as int, crate::config::TIME_STEP as int) == div_trunc(
            v as int,
            60,
        ),
{
    let s = crate::fixed::SCALE as int;
    let ts = crate::config::TIME_STEP as int;
    let x = v as int;
    assert(s == ts * 60);
    if x >= 0 {
        lemma_timestep_shift_nonneg(x);
    } else {
        lemma_timestep_shift_nonneg(-x);
        assert(-(x * ts) == (-x) * ts) by (nonlinear_arith);
    }
    assert(vstd::math::abs(div_trunc(x, 60)) <= vstd::math::abs(x)) by {
        if x >= 0 {
            vstd::arithmetic::div_mod::lemma_div_is_ordered_by_denominator(x,
                1, 60);
            vstd::arithmetic::div_mod::lemma_div_pos_is_pos(x, 60);
        } else {
            vstd::arithmetic::div_mod::lemma_div_is_ordered_by_denominator(-x,
                1, 60);
            vstd::arithmetic::div_mod::lemma_div_pos_is_pos(-x, 60);
        }
    }
}

/// The shift identity for a nonnegative velocity.
proof fn lemma_timestep_shift_nonneg(x: int)
    requires
        0 <= x,
    ensures
        (x * (crate::config::TIME_STEP as int)) / (crate::fixed::SCALE as int)
            == x / 60,
{
    let ts = crate::config::TIME_STEP as int;
    assert(x * ts >= 0) by (nonlinear_arith)
        requires
            x >= 0,
            ts > 0,
    ;
    vstd::arithmetic::div_mod::lemma_div_denominator(x * ts, ts, 60);
    assert((x * ts) / (ts * 60) == ((x * ts) / ts) / 60);
    vstd::arithmetic::div_mod::lemma_div_multiples_vanish(x, ts);
    assert(x * ts == ts * x) by (nonlinear_arith);
    assert(ts * 60 == crate::fixed::SCALE as int);
}

} // verus!

verus! {

/// At the reference timestep the integrator shifts each coordinate by
/// exactly the velocity divided by sixty: the one-step lag between force
/// computation and visible displacement.
pub proof fn lemma_integrator_shift(p: Particle)
    ensures
        spec_moved(p, crate::config::TIME_STEP as int).x as int == spec_add(
            p.x as int,
            div_trunc(p.vx as int, 60),
        ),
        spec_moved(p, crate::config::TIME_STEP as int).y as int == spec_add(
            p.y as int,
            div_trunc(p.vy as int, 60),
        ),
{
    lemma_timestep_shift(p.vx);
    lemma_timestep_shift(p.vy);
}

/// The initial population: `count_per_family` particles for each of
/// `family_count` families, each at a uniformly drawn position in the
/// spawn square and with zero velocity.
pub fn spawn_particles(family_count: usize, count_per_family: usize) -> (r:
    Vec<Particle>)
    requires
        count_per_family >= 1,
        (family_count as int) * (count_per_family as int) <= usize::MAX as int,
    ensures
        r@.len() == (family_count as int) * (count_per_family as int),
        forall|k: int|
            0 <= k < r@.len() ==> (r@[k].family as int == k / (
            count_per_family as int) && -(crate::config::POS_GEN_RANGE as int)
                <= (r@[k].x as int) && (r@[k].x as int)
                < crate::config::POS_GEN_RANGE as int && -(
            crate::config::POS_GEN_RANGE as int) <= (r@[k].y as int) && (
            r@[k].y as int) < crate::config::POS_GEN_RANGE as int && r@[k].vx
                == 0 && r@[k].vy == 0 && step_safe(r@[k])),
{
    let mut out: Vec<Particle> = Vec::new();
    let mut f: usize = 0;
    while f < family_count
        invariant
            f <= family_count,
            count_per_family >= 1,
            (family_count as int) * (count_per_family as int)
                <= usize::MAX as int,
            out@.len() == (f as int) * (count_per_family as int),
            forall|k: int|
                0 <= k < out@.len() ==> (out@[k].family as int == k / (
                count_per_family as int) && -(
                crate::config::POS_GEN_RANGE as int) <= (out@[k].x as int) && (
                out@[k].x as int) < crate::config::POS_GEN_RANGE as int && -(
                crate::config::POS_GEN_RANGE as int) <= (out@[k].y as int) && (
                out@[k].y as int) < crate::config::POS_GEN_RANGE as int
                    && out@[k].vx == 0 && out@[k].vy == 0 && step_safe(
                    out@[k],
                )),
        decreases family_count - f,
    {
        proof {
            assert((f as int) * (count_per_family as int)
                <= (family_count as int) * (count_per_family as int)
                && ((f as int) + 1) * (count_per_family as int)
                <= (family_count as int) * (count_per_family as int))
                by (nonlinear_arith)
                requires
                    (f as int) < family_count as int,
                    count_per_family >= 1,
            ;
        }
        let mut c: usize = 0;
        while c < count_per_family
            invariant
                f < family_count,
                c <= count_per_family,
                count_per_family >= 1,
                (family_count as int) * (count_per_family as int)
                    <= usize::MAX as int,
                ((f as int) + 1) * (count_per_family as int)
                    <= (family_count as int) * (count_per_family as int),
                out@.len() == (f as int) * (count_per_family as int) + c as int,
                forall|k: int|
                    0 <= k < out@.len() ==> (out@[k].family as int == k / (
                    count_per_family as int) && -(
                    crate::config::POS_GEN_RANGE as int) <= (out@[k].x as int)
                        && (out@[k].x as int)
                        < crate::config::POS_GEN_RANGE as int && -(
                    crate::config::POS_GEN_RANGE as int) <= (out@[k].y as int)
                        && (out@[k].y as int)
                        < crate::config::POS_GEN_RANGE as int && out@[k].vx
                        == 0 && out@[k].vy == 0 && step_safe(out@[k])),
            decreases count_per_family - c,
        {
            proof {
                assert((f as int) * (count_per_family as int) + (c as int) + 1
                    <= ((f as int) + 1) * (count_per_family as int))
                    by (nonlinear_arith)
                    requires
                        (c as int) < count_per_family as int,
                ;
                vstd::arithmetic::div_mod::lemma_div_multiples_vanish_fancy(
                    f as int,
                    c as int,
                    count_per_family as int,
                );
                assert((count_per_family as int) * (f as int) == (f as int) * (
                count_per_family as int)) by (nonlinear_arith);
            }
            out.push(
                Particle {
                    family: f,
                    x: crate::rng::rand_range(
                        -crate::config::POS_GEN_RANGE,
                        crate::config::POS_GEN_RANGE,
                    ),
                    y: crate::rng::rand_range(
                        -crate::config::POS_GEN_RANGE,
                        crate::config::POS_GEN_RANGE,
                    ),
                    vx: 0,
                    vy: 0,
                },
            );
            c = c + 1;
        }
        proof {
            assert((f as int) * (count_per_family as int) + (
            count_per_family as int) == ((f as int) + 1) * (
            count_per_family as int)) by (nonlinear_arith);
        }
        f = f + 1;
    }
    out
}

} // verus!

verus! {

/// The zero-distance guard at the level of a whole pass: in a two-particle
/// state whose particles sit closer than one micro-unit apart, the
/// interaction pass alters neither particle's velocity.
pub proof fn lemma_close_pair_keeps_velocity(
    particles: Seq<Particle>,
    i: int,
    params: SimulationParameters,
    radius: int,
)
    requires
        particles.len() == 2,
        0 <= i < 2,
        dist2(particles[0].x as int, particles[0].y as int,
            particles[1].x as int, particles[1].y as int) == 0,
    ensures
        spec_new_velocity(particles, i, params, radius) == ((
        particles[i].vx as int, particles[i].vy as int)),
{
    let ps = positions_of(particles);
    let neigh = in_range_upto(ps, particles[i].x as int, particles[i].y as int,
        radius, 2);
    lemma_in_range_upto(ps, particles[i].x as int, particles[i].y as int,
        radius, 2);
    assert forall|m: int| 0 <= m < neigh.len() implies (neigh[m] as int == i
        || spec_pull(particles[i], particles[neigh[m] as int], params, radius)
        == ((0int, 0int))) by {
        let j = neigh[m];
        assert(neigh.contains(j));
        if j as int != i {
            let pi = particles[i];
            let pj = particles[j as int];
            assert(dist2(pi.x as int, pi.y as int, pj.x as int, pj.y as int)
                == 0) by (nonlinear_arith)
                requires
                    dist2(particles[0].x as int, particles[0].y as int,
                        particles[1].x as int, particles[1].y as int) == 0,
                    pi == particles[i],
                    pj == particles[j as int],
                    0 <= i < 2,
                    0 <= (j as int) < 2,
                    (j as int) != i,
            ;
            lemma_coincident_no_pull(pi, pj, params, radius);
        }
    }
    lemma_fold_keeps_velocity(particles, i, neigh, params, radius,
        neigh.len() as int);
}

} // verus!
