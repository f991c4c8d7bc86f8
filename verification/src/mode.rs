//! The four operating modes and the rule that moves between them.
//!
//! Durations and buffer levels are whole milliseconds.

use vstd::prelude::*;
use crate::policy::{policy_for, ThermalConfig};
use crate::soc::SocClass;

verus! {

/// Operating mode of the controller.
#[derive(Debug, Clone, Copy, PartialEq, Eq, Structural)]
pub enum ThermalMode {
    /// Full speed while the buffer fills.
    ColdStart,
    /// Steady load on the cores that the tier's policy names.
    Sustained,
    /// Cooling off on efficiency cores.
    Efficiency,
    /// Throttled even on efficiency cores: the fewest cores.
    Emergency,
}

/// Buffered audio, in ms, above which the cold start ends.
pub const COLD_START_BUFFER: u64 = 5_000;

/// Time, in ms, after which the cold start ends whatever the buffer holds.
pub const COLD_START_LIMIT: u64 = 30_000;

/// Time, in ms, that the emergency mode lasts at least.
pub const EMERGENCY_HOLD: u64 = 120_000;

impl ThermalMode {
    /// Whether time spent in this mode counts against the thermal budget.
    pub open spec fn is_power_hungry(self) -> bool {
        self == ThermalMode::ColdStart || self == ThermalMode::Sustained
    }
}

/// The mode that follows `mode`.
///
/// `high_power` is the thermal budget used so far, `buffer` the buffered
/// audio, `throttling` the overheating signal and `elapsed` the time spent
/// in `mode`. A low buffer is looked at before anything thermal.
pub open spec fn next_mode(
    mode: ThermalMode,
    config: ThermalConfig,
    high_power: u64,
    buffer: u64,
    throttling: bool,
    elapsed: u64,
) -> ThermalMode {
    match mode {
        ThermalMode::ColdStart => {
            if buffer > COLD_START_BUFFER || elapsed > COLD_START_LIMIT {
                ThermalMode::Sustained
            } else {
                ThermalMode::ColdStart
            }
        },
        ThermalMode::Sustained => {
            if buffer < config.buffer_low_threshold {
                ThermalMode::ColdStart
            } else if high_power > config.max_high_power_duration || throttling || buffer
                > config.buffer_high_threshold {
                ThermalMode::Efficiency
            } else {
                ThermalMode::Sustained
            }
        },
        ThermalMode::Efficiency => {
            if buffer < config.buffer_low_threshold || (elapsed > config.cooldown_duration
                && buffer < config.buffer_high_threshold) {
                ThermalMode::Sustained
            } else if throttling {
                ThermalMode::Emergency
            } else {
                ThermalMode::Efficiency
            }
        },
        ThermalMode::Emergency => {
            if elapsed > EMERGENCY_HOLD && !throttling {
                ThermalMode::Efficiency
            } else {
                ThermalMode::Emergency
            }
        },
    }
}

/// Whether the mode machine has a move from `from` to `to`. The cold start
/// leads to sustained load; sustained load leads back to the cold start or on
/// to cooling; cooling leads back to sustained load or on to the emergency;
/// the emergency leads back to cooling. Every mode may also stay.
pub open spec fn may_follow(from: ThermalMode, to: ThermalMode) -> bool {
    from == to || match from {
        ThermalMode::ColdStart => to == ThermalMode::Sustained,
        ThermalMode::Sustained => to == ThermalMode::ColdStart || to == ThermalMode::Efficiency,
        ThermalMode::Efficiency => to == ThermalMode::Sustained || to == ThermalMode::Emergency,
        ThermalMode::Emergency => to == ThermalMode::Efficiency,
    }
}

/// The machine makes no other moves than those of [`may_follow`].
pub proof fn lemma_moves_follow_the_graph(
    mode: ThermalMode,
    config: ThermalConfig,
    high_power: u64,
    buffer: u64,
    throttling: bool,
    elapsed: u64,
)
    ensures
        may_follow(mode, next_mode(mode, config, high_power, buffer, throttling, elapsed)),
{
}

/// No mode is final: under the policy of every tier, each mode is left once
/// the buffer is empty, nothing throttles and enough time has passed.
pub proof fn lemma_no_mode_is_final(mode: ThermalMode, class: SocClass, high_power: u64)
    ensures
        next_mode(mode, policy_for(class), high_power, 0, false, u64::MAX) != mode,
{
}

/// A buffer below the low threshold always wins: sustained load goes back to
/// the cold start and cooling goes back to sustained load, whatever the
/// thermal budget, the throttling signal and the time spent in the mode.
pub proof fn lemma_low_buffer_escape(
    config: ThermalConfig,
    high_power: u64,
    buffer: u64,
    throttling: bool,
    elapsed: u64,
)
    requires
        buffer < config.buffer_low_threshold,
    ensures
        next_mode(ThermalMode::Sustained, config, high_power, buffer, throttling, elapsed)
            == ThermalMode::ColdStart,
        next_mode(ThermalMode::Efficiency, config, high_power, buffer, throttling, elapsed)
            == ThermalMode::Sustained,
{
}

} // verus!
