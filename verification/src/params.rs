//! The process-wide simulation parameters: every family's properties and a
//! display color per family, generated once at startup and read-only after
//! that.

use vstd::prelude::*;
use crate::family::FamilyProperties;
use crate::family::family_wf;
use crate::fixed::SCALE;
use crate::curve::curve_generated;
use crate::rng::rand_range;

verus! {

/// A display color; each channel holds a fraction of one unit.
#[derive(Clone, Copy, PartialEq, Eq, Structural, Debug)]
pub struct Color {
    pub red: i64,
    pub green: i64,
    pub blue: i64,
}

/// Every channel lies within one unit.
pub open spec fn color_in_unit(c: Color) -> bool {
    &&& 0 <= (c.red as int) && (c.red as int) < (SCALE as int)
    &&& 0 <= (c.green as int) && (c.green as int) < (SCALE as int)
    &&& 0 <= (c.blue as int) && (c.blue as int) < (SCALE as int)
}

/// The set of all families' properties, plus one color per family.
#[derive(Clone, Debug)]
pub struct SimulationParameters {
    pub colors: Vec<Color>,
    pub families: Vec<FamilyProperties>,
}

/// Colors and families run over the same family count, and every family's
/// vectors do as well.
pub open spec fn params_wf(p: SimulationParameters) -> bool {
    &&& p.colors@.len() == p.families@.len()
    &&& forall|i: int|
        0 <= i < p.families@.len() ==> family_wf(
            p.families@[i],
            p.families@.len() as int,
        )
}

impl SimulationParameters {
    /// Generates `count` original families: each gets a random display
    /// color, a one-hot ancestry at its own index and one random curve
    /// against every family.
    pub fn random(count: usize, fast: bool) -> (r: SimulationParameters)
        ensures
            r.families@.len() == count as int,
            params_wf(r),
            forall|i: int|
                0 <= i < count as int ==> color_in_unit(r.colors@[i]),
            forall|i: int, j: int|
                0 <= i < count as int && 0 <= j < count as int
                    ==> r.families@[i].ancestry@[j] as int == (
                if i == j {
                    SCALE as int
                } else {
                    0
                }),
            forall|i: int, j: int|
                0 <= i < count as int && 0 <= j < count as int
                    ==> r.families@[i].curves@[j]@.len() == 1 && curve_generated(
                    r.families@[i].curves@[j]@[0],
                    fast,
                ),
    {
        let mut colors: Vec<Color> = Vec::new();
        let mut i: usize = 0;
        while i < count
            invariant
                i <= count,
                colors@.len() == i as int,
                forall|k: int| 0 <= k < i as int ==> color_in_unit(colors@[k]),
            decreases count - i,
        {
            colors.push(
                Color {
                    red: rand_range(0, SCALE),
                    green: rand_range(0, SCALE),
                    blue: rand_range(0, SCALE),
                },
            );
            i = i + 1;
        }
        let mut families: Vec<FamilyProperties> = Vec::new();
        let mut i: usize = 0;
        while i < count
            invariant
                i <= count,
                families@.len() == i as int,
                forall|k: int|
                    0 <= k < i as int ==> family_wf(families@[k], count as int),
                forall|k: int, j: int|
                    0 <= k < i as int && 0 <= j < count as int
                        ==> families@[k].ancestry@[j] as int == (
                    if k == j {
                        SCALE as int
                    } else {
                        0
                    }),
                forall|k: int, j: int|
                    0 <= k < i as int && 0 <= j < count as int
                        ==> families@[k].curves@[j]@.len() == 1
                        && curve_generated(families@[k].curves@[j]@[0], fast),
            decreases count - i,
        {
            families.push(FamilyProperties::random(i, count, fast));
            i = i + 1;
        }
        SimulationParameters { colors, families }
    }
}

} // verus!
