//! The seed from which the map of a run is laid out.

use vstd::prelude::*;

verus! {

/// The seed of a run.
#[derive(Clone, Copy, Debug, PartialEq, Eq, Structural)]
pub struct Seed(pub u32);

/// The distance of `v` from zero.
pub open spec fn magnitude(v: int) -> nat {
    if v < 0 {
        (-v) as nat
    } else {
        v as nat
    }
}

/// Reads the clock through `chrono::Utc::now` and
/// `DateTime::timestamp_millis`: the milliseconds since the start of
/// 1970, as the system clock has them. Nothing is claimed of the value.
/// The call does not return where the clock stands before 1970.
#[verifier::external_body]
fn now_millis() -> (millis: i64) {
    chrono::Utc::now().timestamp_millis()
}

impl Seed {
    /// The seed for a clock reading: the low 32 bits of its distance
    /// from zero.
    pub open spec fn of(millis: i64) -> Seed {
        Seed((magnitude(millis as int) % 0x1_0000_0000) as u32)
    }

    /// The seed for the clock reading `millis`.
    pub fn from_millis(millis: i64) -> (seed: Seed)
        ensures
            seed == Seed::of(millis),
    {
        let distance: u64 = if millis == i64::MIN {
            0x8000_0000_0000_0000
        } else if millis < 0 {
            (-millis) as u64
        } else {
            millis as u64
        };
        let low: u64 = distance & 0xFFFF_FFFF;
        proof {
            assert(distance & 0xFFFF_FFFF == distance % 0x1_0000_0000) by (bit_vector);
        }
        Seed(low as u32)
    }

    /// A seed taken from the clock.
    pub fn now() -> (seed: Seed)
        ensures
            exists|millis: i64| seed == Seed::of(millis),
    {
        let millis = now_millis();
        Seed::from_millis(millis)
    }
}

} // verus!
