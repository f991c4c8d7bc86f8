//! Capability tiers of a system-on-chip and the rule that assigns them.

use vstd::prelude::*;

verus! {

/// Coarse capability bucket of a system-on-chip.
#[derive(Debug, Clone, Copy, PartialEq, Eq, Structural)]
pub enum SocClass {
    Flagship,
    HighEnd,
    MidRange,
    LowEnd,
}

/// Clock above which an eight-core chip counts as flagship, in kHz.
pub const FLAGSHIP_MIN_KHZ: u64 = 3_000_000;

/// Clock above which an eight-core chip counts as high-end, in kHz.
pub const HIGH_END_MIN_KHZ: u64 = 2_500_000;

/// Clock above which a chip of any core count counts as mid-range, in kHz.
pub const MID_RANGE_MIN_KHZ: u64 = 2_000_000;

/// Core count that the two upper tiers ask for.
pub const BIG_CHIP_CORES: usize = 8;

/// The tier of a chip whose fastest core runs at `max_freq` kHz and which has
/// `num_cores` cores.
pub open spec fn tier_of(max_freq: u64, num_cores: nat) -> SocClass {
    if max_freq > FLAGSHIP_MIN_KHZ && num_cores >= BIG_CHIP_CORES {
        SocClass::Flagship
    } else if max_freq > HIGH_END_MIN_KHZ && num_cores >= BIG_CHIP_CORES {
        SocClass::HighEnd
    } else if max_freq > MID_RANGE_MIN_KHZ {
        SocClass::MidRange
    } else {
        SocClass::LowEnd
    }
}

impl SocClass {
    /// Position of the tier on the capability scale: 0 for the weakest tier,
    /// 3 for the strongest.
    pub open spec fn spec_rank(self) -> u8 {
        match self {
            SocClass::Flagship => 3,
            SocClass::HighEnd => 2,
            SocClass::MidRange => 1,
            SocClass::LowEnd => 0,
        }
    }

    /// Position of the tier on the capability scale.
    #[verifier::when_used_as_spec(spec_rank)]
    pub fn rank(self) -> (r: u8)
        ensures
            r == self.spec_rank(),
    {
        match self {
            SocClass::Flagship => 3,
            SocClass::HighEnd => 2,
            SocClass::MidRange => 1,
            SocClass::LowEnd => 0,
        }
    }
}

} // verus!
