//! The thermal controller: a mode machine driven by buffer and speed
//! telemetry, which names the cores to run on whenever the mode changes.
//!
//! Times and buffer levels are whole milliseconds; speed ratios are
//! thousandths. The controller decides; pinning the worker to the cores it
//! names is left to the caller.

use vstd::prelude::*;
use std::time::Instant;
use crate::clock::{clock_now, millis_since};
use crate::mode::{
    next_mode, ThermalMode, COLD_START_BUFFER, COLD_START_LIMIT, EMERGENCY_HOLD,
};
use crate::policy::{policy_for, ThermalConfig};
use crate::selection::{cores_for, select_cores, threads_for};
use crate::soc::SocClass;
use crate::topology::{CpuTopology, TopologyView};
use crate::window::{
    is_throttled, push_sample, pushed, settled_baseline, sum_samples, throttled, WINDOW_CAPACITY,
};

verus! {

/// The part of a controller that telemetry changes.
pub struct ControllerState {
    /// Current mode.
    pub mode: ThermalMode,
    /// Thermal budget used: time counted against the power-hungry modes
    /// since it was last cleared.
    pub high_power_elapsed: u64,
    /// Clock reading at which the current mode was entered.
    pub mode_entered_at: u64,
    /// Sum of the five samples that formed the baseline, once there is one.
    pub baseline: Option<u64>,
    /// The latest samples, oldest first.
    pub window: Seq<u32>,
}

/// Mathematical model of a [`UnifiedThermalManager`].
pub struct ManagerView {
    pub topology: TopologyView,
    pub config: ThermalConfig,
    pub state: ControllerState,
}

/// Time from `since` to `now` on a clock that does not run backwards; zero
/// where `now` lies before `since`.
pub open spec fn elapsed_between(since: u64, now: u64) -> u64 {
    if now >= since {
        (now - since) as u64
    } else {
        0
    }
}

/// The thermal budget used after `elapsed` more time in `mode`: time in the
/// power-hungry modes is added, held at the largest `u64`; other time is not
/// counted.
pub open spec fn budget_after(mode: ThermalMode, used: u64, elapsed: u64) -> u64 {
    if mode.is_power_hungry() {
        if used + elapsed > u64::MAX {
            u64::MAX
        } else {
            (used + elapsed) as u64
        }
    } else {
        used
    }
}

impl ControllerState {
    /// The state of a controller that has seen no telemetry, on a clock that
    /// reads zero.
    pub open spec fn fresh() -> ControllerState {
        ControllerState {
            mode: ThermalMode::ColdStart,
            high_power_elapsed: 0,
            mode_entered_at: 0,
            baseline: None,
            window: Seq::empty(),
        }
    }

    /// The window holds at most five samples, and there is a baseline
    /// exactly when the window is full.
    pub open spec fn wf(self) -> bool {
        &&& self.window.len() <= WINDOW_CAPACITY
        &&& (self.baseline is None <==> self.window.len() < WINDOW_CAPACITY)
    }

    /// The state after one update under policy `config`, at clock reading
    /// `now`, with `buffer` of audio buffered and the latest speed ratio
    /// `rtf`.
    ///
    /// The sample enters the window; the first full window sets the
    /// baseline; where the mode is power-hungry, the whole time since the
    /// mode was entered is added to the thermal budget, at every update
    /// anew; the next mode is chosen. Where the mode changes, `now` becomes
    /// the time of entry, and entering the efficiency mode clears the
    /// thermal budget.
    pub open spec fn after(self, config: ThermalConfig, now: u64, buffer: u64, rtf: u32)
        -> ControllerState {
        let window = pushed(self.window, rtf);
        let baseline = settled_baseline(self.baseline, window);
        let elapsed = elapsed_between(self.mode_entered_at, now);
        let used = budget_after(self.mode, self.high_power_elapsed, elapsed);
        let mode = next_mode(
            self.mode,
            config,
            used,
            buffer,
            throttled(baseline, window),
            elapsed,
        );
        ControllerState {
            mode,
            high_power_elapsed: if mode != self.mode && mode == ThermalMode::Efficiency {
                0
            } else {
                used
            },
            mode_entered_at: if mode != self.mode {
                now
            } else {
                self.mode_entered_at
            },
            baseline,
            window,
        }
    }
}

impl ManagerView {
    /// The model of a controller made for `topology` that has seen no
    /// telemetry.
    pub open spec fn fresh(topology: TopologyView) -> ManagerView {
        ManagerView {
            topology,
            config: policy_for(topology.soc_class),
            state: ControllerState::fresh(),
        }
    }

    /// The state is well formed and the policy is that of the chip's tier.
    pub open spec fn wf(self) -> bool {
        &&& self.state.wf()
        &&& self.config == policy_for(self.topology.soc_class)
    }

    /// The model after one update; see [`ControllerState::after`].
    pub open spec fn after(self, now: u64, buffer: u64, rtf: u32) -> ManagerView {
        ManagerView { state: self.state.after(self.config, now, buffer, rtf), ..self }
    }

    /// The cores that carry the load in the current mode.
    pub open spec fn cores(self) -> Seq<usize> {
        cores_for(self.state.mode, self.topology, self.config.sustained_mode_cores)
    }

    /// What one update reports: the mode after it and, where the mode has
    /// changed, the cores to pin the worker to.
    pub open spec fn decision(self, now: u64, buffer: u64, rtf: u32) -> (
        ThermalMode,
        Option<Seq<usize>>,
    ) {
        let next = self.after(now, buffer, rtf);
        (
            next.state.mode,
            if next.state.mode != self.state.mode {
                Some(next.cores())
            } else {
                None
            },
        )
    }
}

/// What an update reports to the caller.
#[derive(Debug)]
pub struct UpdateOutcome {
    /// The mode after the update.
    pub mode: ThermalMode,
    /// The cores to pin the worker to, where the mode has changed.
    pub affinity: Option<Vec<usize>>,
}

impl View for UpdateOutcome {
    type V = (ThermalMode, Option<Seq<usize>>);

    open spec fn view(&self) -> (ThermalMode, Option<Seq<usize>>) {
        (
            self.mode,
            match self.affinity {
                Some(cores) => Some(cores@),
                None => None,
            },
        )
    }
}

/// Thermal-aware affinity controller of one chip.
pub struct UnifiedThermalManager {
    topology: CpuTopology,
    config: ThermalConfig,
    current_mode: ThermalMode,
    high_power_usage_time: u64,
    last_mode_switch: u64,
    baseline_rtf: Option<u64>,
    recent_rtf: Vec<u32>,
    epoch: Instant,
}

impl View for UnifiedThermalManager {
    type V = ManagerView;

    closed spec fn view(&self) -> ManagerView {
        ManagerView {
            topology: self.topology@,
            config: self.config,
            state: ControllerState {
                mode: self.current_mode,
                high_power_elapsed: self.high_power_usage_time,
                mode_entered_at: self.last_mode_switch,
                baseline: self.baseline_rtf,
                window: self.recent_rtf@,
            },
        }
    }
}

impl UnifiedThermalManager {
    /// The invariant of a controller: that of its model.
    pub open spec fn wf(&self) -> bool {
        self@.wf()
    }

    /// A controller for a chip of layout `topology`, in cold start, with the
    /// policy of the chip's tier. Its clock starts now and reads zero.
    pub fn new(topology: CpuTopology) -> (manager: UnifiedThermalManager)
        ensures
            manager.wf(),
            manager@ == ManagerView::fresh(topology@),
    {
        let config = ThermalConfig::for_soc_class(topology.soc_class);
        UnifiedThermalManager {
            topology,
            config,
            current_mode: ThermalMode::ColdStart,
            high_power_usage_time: 0,
            last_mode_switch: 0,
            baseline_rtf: None,
            recent_rtf: Vec::new(),
            epoch: clock_now(),
        }
    }

    /// Takes in one telemetry reading at the present time of the
    /// controller's own clock: `buffer_ms` of audio buffered, and the speed
    /// ratio `current_rtf` of the latest piece of work.
    ///
    /// The clock may read anything; the update is the one that
    /// [`update_at`](Self::update_at) makes for that reading.
    pub fn update(&mut self, buffer_ms: u64, current_rtf: u32) -> (outcome: UpdateOutcome)
        requires
            old(self).wf(),
        ensures
            final(self).wf(),
            exists|now: u64|
                final(self)@ == old(self)@.after(now, buffer_ms, current_rtf) && outcome@ == old(
                    self,
                )@.decision(now, buffer_ms, current_rtf),
    {
        let now = millis_since(&self.epoch);
        self.update_at(now, buffer_ms, current_rtf)
    }

    /// Takes in one telemetry reading at clock reading `now_ms`: `buffer_ms`
    /// of audio buffered, and the speed ratio `current_rtf` of the latest
    /// piece of work.
    ///
    /// Reports the mode after the update and, where the mode has changed,
    /// the cores to pin the worker to.
    pub fn update_at(&mut self, now_ms: u64, buffer_ms: u64, current_rtf: u32) -> (outcome:
        UpdateOutcome)
        requires
            old(self).wf(),
        ensures
            final(self).wf(),
            final(self)@ == old(self)@.after(now_ms, buffer_ms, current_rtf),
            outcome@ == old(self)@.decision(now_ms, buffer_ms, current_rtf),
    {
        push_sample(&mut self.recent_rtf, current_rtf);
        if self.baseline_rtf.is_none() && self.recent_rtf.len() == WINDOW_CAPACITY {
            self.baseline_rtf = Some(sum_samples(&self.recent_rtf));
        }
        let rtf_degradation = self.detect_throttling();
        let elapsed = if now_ms >= self.last_mode_switch {
            now_ms - self.last_mode_switch
        } else {
            0
        };
        match self.current_mode {
            ThermalMode::ColdStart | ThermalMode::Sustained => {
                self.high_power_usage_time = if elapsed > u64::MAX - self.high_power_usage_time {
                    u64::MAX
                } else {
                    self.high_power_usage_time + elapsed
                };
            },
            _ => {},
        }
        let new_mode = self.decide_mode(buffer_ms, rtf_degradation, elapsed);
        if new_mode != self.current_mode {
            self.current_mode = new_mode;
            self.last_mode_switch = now_ms;
            if new_mode == ThermalMode::Efficiency {
                self.high_power_usage_time = 0;
            }
            let cores = self.get_cores_for_mode();
            UpdateOutcome { mode: new_mode, affinity: Some(cores) }
        } else {
            UpdateOutcome { mode: new_mode, affinity: None }
        }
    }

    /// The mode that follows the current one, for `buffer_ms` of audio
    /// buffered, the throttling signal `rtf_degradation` and `elapsed_ms`
    /// spent in the current mode.
    pub fn decide_mode(&self, buffer_ms: u64, rtf_degradation: bool, elapsed_ms: u64) -> (mode:
        ThermalMode)
        ensures
            mode == next_mode(
                self@.state.mode,
                self@.config,
                self@.state.high_power_elapsed,
                buffer_ms,
                rtf_degradation,
                elapsed_ms,
            ),
    {
        match self.current_mode {
            ThermalMode::ColdStart => {
                if buffer_ms > COLD_START_BUFFER || elapsed_ms > COLD_START_LIMIT {
                    ThermalMode::Sustained
                } else {
                    ThermalMode::ColdStart
                }
            },
            ThermalMode::Sustained => {
                if buffer_ms < self.config.buffer_low_threshold {
                    ThermalMode::ColdStart
                } else if self.high_power_usage_time > self.config.max_high_power_duration
                    || rtf_degradation {
                    ThermalMode::Efficiency
                } else if buffer_ms > self.config.buffer_high_threshold {
                    ThermalMode::Efficiency
                } else {
                    ThermalMode::Sustained
                }
            },
            ThermalMode::Efficiency => {
                if buffer_ms < self.config.buffer_low_threshold {
                    ThermalMode::Sustained
                } else if elapsed_ms > self.config.cooldown_duration && buffer_ms
                    < self.config.buffer_high_threshold {
                    ThermalMode::Sustained
                } else if rtf_degradation {
                    ThermalMode::Emergency
                } else {
                    ThermalMode::Efficiency
                }
            },
            ThermalMode::Emergency => {
                if elapsed_ms > EMERGENCY_HOLD && !rtf_degradation {
                    ThermalMode::Efficiency
                } else {
                    ThermalMode::Emergency
                }
            },
        }
    }

    /// The cores that carry the load in the current mode.
    pub fn get_cores_for_mode(&self) -> (cores: Vec<usize>)
        ensures
            cores@ == self@.cores(),
    {
        select_cores(self.current_mode, &self.topology, self.config.sustained_mode_cores)
    }

    /// Number of worker threads for the current mode: one for each core that
    /// carries the load, and one where there is no such core.
    pub fn get_thread_count(&self) -> (threads: usize)
        ensures
            threads == threads_for(self@.cores()),
            threads >= 1,
    {
        let cores = self.get_cores_for_mode();
        if cores.len() == 0 {
            1
        } else {
            cores.len()
        }
    }

    /// Whether the latest samples average below 60% of the baseline.
    pub fn detect_throttling(&self) -> (throttling: bool)
        requires
            self.wf(),
        ensures
            throttling == throttled(self@.state.baseline, self@.state.window),
    {
        is_throttled(self.baseline_rtf, &self.recent_rtf)
    }

    /// Tier of the chip.
    pub fn get_soc_class(&self) -> (class: SocClass)
        ensures
            class == self@.topology.soc_class,
    {
        self.topology.soc_class
    }

    /// Current mode.
    pub fn get_current_mode(&self) -> (mode: ThermalMode)
        ensures
            mode == self@.state.mode,
    {
        self.current_mode
    }

    /// Thermal budget used, in ms.
    pub fn high_power_usage_time(&self) -> (used: u64)
        ensures
            used == self@.state.high_power_elapsed,
    {
        self.high_power_usage_time
    }

    /// Sum of the five speed ratios that formed the baseline, once there is
    /// one; the baseline ratio is a fifth of it.
    pub fn baseline_rtf(&self) -> (baseline: Option<u64>)
        ensures
            baseline == self@.state.baseline,
    {
        self.baseline_rtf
    }
}

} // verus!
