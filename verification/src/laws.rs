//! What holds of the mode machine over one update and over whole runs.

use vstd::prelude::*;
use crate::manager::{budget_after, elapsed_between, ControllerState, ManagerView};
use crate::mode::ThermalMode;
use crate::policy::ThermalConfig;
use crate::topology::TopologyView;
use crate::window::{pushed, settled_baseline, sum_of, throttled, WINDOW_CAPACITY};

verus! {

/// One telemetry reading together with the clock reading at which it is
/// taken in.
pub struct Tick {
    /// Clock reading, in ms.
    pub now: u64,
    /// Buffered audio, in ms.
    pub buffer: u64,
    /// Speed ratio, in thousandths.
    pub rtf: u32,
}

/// The speed ratios of `ticks`, in order.
pub open spec fn ratios(ticks: Seq<Tick>) -> Seq<u32> {
    ticks.map_values(|t: Tick| t.rtf)
}

/// The last `n` entries of `s`, or all of `s` where it has fewer.
pub open spec fn last_up_to(s: Seq<u32>, n: nat) -> Seq<u32> {
    if s.len() <= n {
        s
    } else {
        s.skip(s.len() - n)
    }
}

impl ControllerState {
    /// The throttling signal that an update with speed ratio `rtf` reads.
    pub open spec fn throttling_with(self, rtf: u32) -> bool {
        let window = pushed(self.window, rtf);
        throttled(settled_baseline(self.baseline, window), window)
    }

    /// The state after the updates `ticks`, one after the other.
    pub open spec fn replayed(self, config: ThermalConfig, ticks: Seq<Tick>) -> ControllerState
        decreases ticks.len(),
    {
        if ticks.len() == 0 {
            self
        } else {
            let t = ticks.last();
            self.replayed(config, ticks.drop_last()).after(config, t.now, t.buffer, t.rtf)
        }
    }
}

impl ManagerView {
    /// The model after the updates `ticks`, one after the other.
    pub open spec fn replayed(self, ticks: Seq<Tick>) -> ManagerView {
        ManagerView { state: self.state.replayed(self.config, ticks), ..self }
    }

    /// The modes that the updates `ticks` report, one for each.
    pub open spec fn modes_over(self, ticks: Seq<Tick>) -> Seq<ThermalMode> {
        Seq::new(ticks.len(), |i: int| self.replayed(ticks.take(i + 1)).state.mode)
    }
}

/// The mode after an update is fixed by the policy, the mode before, the
/// thermal budget used, the buffered audio, the throttling signal and the
/// time spent in the mode: two states that agree on these move to the same
/// mode, whatever their clocks, baselines and windows hold.
pub proof fn lemma_next_mode_is_determined(
    config: ThermalConfig,
    a: ControllerState,
    b: ControllerState,
    now_a: u64,
    now_b: u64,
    buffer: u64,
    rtf_a: u32,
    rtf_b: u32,
)
    requires
        a.mode == b.mode,
        a.high_power_elapsed == b.high_power_elapsed,
        a.throttling_with(rtf_a) == b.throttling_with(rtf_b),
        elapsed_between(a.mode_entered_at, now_a) == elapsed_between(b.mode_entered_at, now_b),
    ensures
        a.after(config, now_a, buffer, rtf_a).mode == b.after(config, now_b, buffer, rtf_b).mode,
{
}

/// Replaying the same updates on two fresh controllers of one tier reports
/// the same modes, whatever the core layouts of the two chips.
pub proof fn lemma_replay_reports_same_modes(
    first: TopologyView,
    second: TopologyView,
    ticks: Seq<Tick>,
)
    requires
        first.soc_class == second.soc_class,
    ensures
        ManagerView::fresh(first).modes_over(ticks) == ManagerView::fresh(second).modes_over(
            ticks,
        ),
{
    assert(ManagerView::fresh(first).modes_over(ticks) =~= ManagerView::fresh(second).modes_over(
        ticks,
    ));
}

/// A low buffer wins in every tier: from sustained load the update goes back
/// to the cold start and from cooling it goes back to sustained load,
/// whatever the speed ratio, the clock and the thermal budget.
pub proof fn lemma_low_buffer_wins(m: ManagerView, now: u64, buffer: u64, rtf: u32)
    requires
        buffer < m.config.buffer_low_threshold,
    ensures
        m.state.mode == ThermalMode::Sustained ==> m.after(now, buffer, rtf).state.mode
            == ThermalMode::ColdStart,
        m.state.mode == ThermalMode::Efficiency ==> m.after(now, buffer, rtf).state.mode
            == ThermalMode::Sustained,
{
}

/// The thermal budget used grows only by time spent in the cold start or
/// under sustained load, and it falls only by being cleared on entry to the
/// efficiency mode, which always clears it.
pub proof fn lemma_thermal_budget_moves(
    config: ThermalConfig,
    s: ControllerState,
    now: u64,
    buffer: u64,
    rtf: u32,
)
    ensures
        ({
            let t = s.after(config, now, buffer, rtf);
            let entering = t.mode == ThermalMode::Efficiency && s.mode != ThermalMode::Efficiency;
            &&& entering ==> t.high_power_elapsed == 0
            &&& !entering ==> t.high_power_elapsed == budget_after(
                s.mode,
                s.high_power_elapsed,
                elapsed_between(s.mode_entered_at, now),
            )
            &&& !entering ==> t.high_power_elapsed >= s.high_power_elapsed
            &&& t.high_power_elapsed > s.high_power_elapsed ==> s.mode.is_power_hungry()
            &&& t.high_power_elapsed < s.high_power_elapsed ==> entering
        }),
{
}

/// From a fresh state on, no thermal budget is counted as used while the
/// controller cools or is in the emergency mode.
pub proof fn lemma_budget_is_clear_while_cooling(config: ThermalConfig, ticks: Seq<Tick>)
    ensures
        ({
            let s = ControllerState::fresh().replayed(config, ticks);
            !s.mode.is_power_hungry() ==> s.high_power_elapsed == 0
        }),
    decreases ticks.len(),
{
    if ticks.len() > 0 {
        lemma_budget_is_clear_while_cooling(config, ticks.drop_last());
    }
}

/// An update keeps a baseline that is there, and sets one exactly when it
/// takes in the sample that fills the window: the sum of that window.
pub proof fn lemma_baseline_is_set_once(
    config: ThermalConfig,
    s: ControllerState,
    now: u64,
    buffer: u64,
    rtf: u32,
)
    requires
        s.wf(),
    ensures
        ({
            let t = s.after(config, now, buffer, rtf);
            &&& t.wf()
            &&& s.baseline is Some ==> t.baseline == s.baseline
            &&& s.baseline is None ==> (t.baseline is Some <==> s.window.len() + 1
                == WINDOW_CAPACITY)
            &&& s.baseline is None && t.baseline is Some ==> t.baseline == Some(
                sum_of(s.window.push(rtf)) as u64,
            )
        }),
{
}

/// After any run of updates from a fresh state the window holds the last
/// five speed ratios, and the baseline is the sum of the first five: it is
/// there from the fifth update on and never changes.
pub proof fn lemma_baseline_is_first_five(config: ThermalConfig, ticks: Seq<Tick>)
    ensures
        ({
            let s = ControllerState::fresh().replayed(config, ticks);
            &&& s.wf()
            &&& s.window == last_up_to(ratios(ticks), WINDOW_CAPACITY as nat)
            &&& s.baseline == if ticks.len() >= WINDOW_CAPACITY {
                Some(sum_of(ratios(ticks).take(WINDOW_CAPACITY as int)) as u64)
            } else {
                None
            }
        }),
    decreases ticks.len(),
{
    if ticks.len() > 0 {
        let front = ticks.drop_last();
        let t = ticks.last();
        lemma_baseline_is_first_five(config, front);
        let before = ControllerState::fresh().replayed(config, front);
        let s = before.after(config, t.now, t.buffer, t.rtf);
        assert(ratios(ticks) =~= ratios(front).push(t.rtf));
        assert(s.window =~= last_up_to(ratios(ticks), WINDOW_CAPACITY as nat));
        if ticks.len() == WINDOW_CAPACITY {
            assert(ratios(ticks).take(WINDOW_CAPACITY as int) =~= ratios(ticks));
        } else if ticks.len() > WINDOW_CAPACITY {
            assert(ratios(ticks).take(WINDOW_CAPACITY as int) =~= ratios(front).take(
                WINDOW_CAPACITY as int,
            ));
        }
    }
}

} // verus!
