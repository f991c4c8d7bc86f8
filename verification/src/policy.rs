//! The fixed thermal policy of each capability tier.
//!
//! Durations and buffer levels are whole milliseconds.

use vstd::prelude::*;
use crate::soc::SocClass;

verus! {

/// Which cores carry the load in sustained mode.
#[derive(Debug, Clone, Copy, PartialEq, Eq, Structural)]
pub enum CoreSelection {
    /// Every performance core.
    AllPerf,
    /// The first performance core alone.
    SinglePerf,
    /// The first performance core and up to two efficiency cores.
    HybridPerfLittle,
    /// Every efficiency core.
    AllLittle,
    /// As few efficiency cores as possible.
    MinimalLittle,
}

/// Thermal configuration of one tier.
#[derive(Debug, Clone, Copy, PartialEq, Eq, Structural)]
pub struct ThermalConfig {
    /// Buffered audio, in ms, below which speed is reclaimed at once.
    pub buffer_low_threshold: u64,
    /// Buffered audio, in ms, above which the chip may cool off early.
    pub buffer_high_threshold: u64,
    /// Thermal budget, in ms: time in the power-hungry modes after which a
    /// cooldown is forced.
    pub max_high_power_duration: u64,
    /// Least time, in ms, spent cooling before sustained load is tried again.
    pub cooldown_duration: u64,
    /// Whether the prime core may carry load.
    pub use_prime_core: bool,
    /// Core selection in sustained mode.
    pub sustained_mode_cores: CoreSelection,
}

/// The policy of tier `class`.
pub open spec fn policy_for(class: SocClass) -> ThermalConfig {
    match class {
        SocClass::Flagship => ThermalConfig {
            buffer_low_threshold: 3_000,
            buffer_high_threshold: 12_000,
            max_high_power_duration: 180_000,
            cooldown_duration: 45_000,
            use_prime_core: false,
            sustained_mode_cores: CoreSelection::AllPerf,
        },
        SocClass::HighEnd => ThermalConfig {
            buffer_low_threshold: 2_500,
            buffer_high_threshold: 10_000,
            max_high_power_duration: 120_000,
            cooldown_duration: 60_000,
            use_prime_core: false,
            sustained_mode_cores: CoreSelection::AllPerf,
        },
        SocClass::MidRange => ThermalConfig {
            buffer_low_threshold: 2_000,
            buffer_high_threshold: 10_000,
            max_high_power_duration: 90_000,
            cooldown_duration: 90_000,
            use_prime_core: false,
            sustained_mode_cores: CoreSelection::HybridPerfLittle,
        },
        SocClass::LowEnd => ThermalConfig {
            buffer_low_threshold: 1_500,
            buffer_high_threshold: 8_000,
            max_high_power_duration: 60_000,
            cooldown_duration: 120_000,
            use_prime_core: false,
            sustained_mode_cores: CoreSelection::SinglePerf,
        },
    }
}

/// Number of efficiency cores that a low-end chip cools on at most.
pub const LOW_END_COOLING_CORES: usize = 2;

/// Number of efficiency cores that a chip of any other tier cools on at most.
pub const COOLING_CORES: usize = 4;

/// How many efficiency cores tier `class` uses at most while cooling.
pub open spec fn efficiency_core_limit(class: SocClass) -> nat {
    match class {
        SocClass::LowEnd => LOW_END_COOLING_CORES as nat,
        _ => COOLING_CORES as nat,
    }
}

impl ThermalConfig {
    /// The policy of tier `soc_class`.
    pub fn for_soc_class(soc_class: SocClass) -> (config: ThermalConfig)
        ensures
            config == policy_for(soc_class),
    {
        match soc_class {
            SocClass::Flagship => ThermalConfig {
                buffer_low_threshold: 3_000,
                buffer_high_threshold: 12_000,
                max_high_power_duration: 180_000,
                cooldown_duration: 45_000,
                use_prime_core: false,
                sustained_mode_cores: CoreSelection::AllPerf,
            },
            SocClass::HighEnd => ThermalConfig {
                buffer_low_threshold: 2_500,
                buffer_high_threshold: 10_000,
                max_high_power_duration: 120_000,
                cooldown_duration: 60_000,
                use_prime_core: false,
                sustained_mode_cores: CoreSelection::AllPerf,
            },
            SocClass::MidRange => ThermalConfig {
                buffer_low_threshold: 2_000,
                buffer_high_threshold: 10_000,
                max_high_power_duration: 90_000,
                cooldown_duration: 90_000,
                use_prime_core: false,
                sustained_mode_cores: CoreSelection::HybridPerfLittle,
            },
            SocClass::LowEnd => ThermalConfig {
                buffer_low_threshold: 1_500,
                buffer_high_threshold: 8_000,
                max_high_power_duration: 60_000,
                cooldown_duration: 120_000,
                use_prime_core: false,
                sustained_mode_cores: CoreSelection::SinglePerf,
            },
        }
    }
}

/// A weaker tier is never treated less carefully than a stronger one: its
/// thermal budget is no longer, its cooldown no shorter, its buffer
/// thresholds no higher, and it cools on no more efficiency cores.
pub proof fn lemma_policy_tightens_with_tier(weaker: SocClass, stronger: SocClass)
    requires
        weaker.spec_rank() <= stronger.spec_rank(),
    ensures
        policy_for(weaker).max_high_power_duration <= policy_for(stronger).max_high_power_duration,
        policy_for(weaker).cooldown_duration >= policy_for(stronger).cooldown_duration,
        policy_for(weaker).buffer_low_threshold <= policy_for(stronger).buffer_low_threshold,
        policy_for(weaker).buffer_high_threshold <= policy_for(stronger).buffer_high_threshold,
        efficiency_core_limit(weaker) <= efficiency_core_limit(stronger),
{
}

/// In every tier the low buffer threshold lies below the high one, and no
/// tier lets the prime core carry load.
pub proof fn lemma_policy_is_sound(class: SocClass)
    ensures
        policy_for(class).buffer_low_threshold < policy_for(class).buffer_high_threshold,
        !policy_for(class).use_prime_core,
{
}

} // verus!
