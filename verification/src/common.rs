//! Basic vocabulary of the colony: skill tiers, the engine's error type,
//! and dice rolls.

use vstd::prelude::*;

verus! {

/// Skill or quality level of workers, equipment and resources.
/// `NoTier` marks unique, non-tiered entities; it is not a valid labor or
/// equipment tier.
#[derive(PartialEq, Eq, Clone, Copy, Debug, Hash, Structural)]
pub enum Tier {
    NoTier,
    T1,
    T2,
    T3,
}

impl Tier {
    /// Whether this tier may stand on a colonist or a task as a labor tier.
    pub open spec fn is_labor_tier(self) -> bool {
        self != Tier::NoTier
    }
}

/// The engine's closed error taxonomy.
#[derive(PartialEq, Eq, Clone, Copy, Debug, Structural)]
pub enum SamosborError {
    NoEmptyArea,
    NotEnoughArea,
    NotEnoughResources,
}

/// Relies on `rand::Rng::gen_range` over `0..sides` (via `rand::thread_rng`):
/// the result is uniformly drawn and strictly below `sides`; the call panics
/// on an empty range, so `sides` must be positive.
#[verifier::external_body]
fn roll_die(sides: u8) -> (r: u8)
    requires
        sides >= 1,
    ensures
        r < sides,
{
    rand::Rng::gen_range(&mut rand::thread_rng(), 0..sides)
}

/// Roll `rolls` dice of `sides` sides each and sum them; zero dice or
/// zero-sided dice give zero.
pub fn d(rolls: u8, sides: u8) -> (result: usize)
    ensures
        sides >= 1 ==> result <= (rolls as int) * ((sides as int) - 1),
        rolls < 1 || sides < 1 ==> result == 0,
{
    if sides < 1 || rolls < 1 {
        0
    } else {
        let mut result: usize = 0;
        let mut i: u8 = 0;
        while i < rolls
            invariant
                i <= rolls,
                sides >= 1,
                result <= (i as int) * ((sides as int) - 1),
            decreases rolls - i,
        {
            let face = roll_die(sides);
            proof {
                assert(((i + 1) as int) * ((sides as int) - 1)
                    == (i as int) * ((sides as int) - 1) + ((sides as int) - 1))
                    by (nonlinear_arith);
                assert((i as int) * ((sides as int) - 1) <= 255 * 255) by (nonlinear_arith)
                    requires i <= 255 && 1 <= sides <= 255;
            }
            result = result + face as usize;
            i = i + 1;
        }
        result
    }
}

} // verus!
