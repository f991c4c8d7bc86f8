//! Which cores a worker runs on in each mode.

use vstd::prelude::*;
use crate::mode::ThermalMode;
use crate::policy::{
    efficiency_core_limit, CoreSelection, COOLING_CORES, LOW_END_COOLING_CORES,
};
use crate::soc::SocClass;
use crate::topology::{CpuTopology, TopologyView};

verus! {

/// Number of efficiency cores used at most in emergency mode, and beside the
/// performance core of the hybrid selection.
pub const FEW_LITTLE_CORES: usize = 2;

/// The first `n` entries of `s`, or all of `s` where it has fewer.
pub open spec fn first_up_to(s: Seq<usize>, n: nat) -> Seq<usize> {
    if n <= s.len() {
        s.take(n as int)
    } else {
        s
    }
}

/// The cores that carry the load in `mode`.
///
/// - Cold start: every performance core; the prime core is never used.
/// - Sustained: by `strategy`. All performance cores; or the first of them;
///   or the first of them and up to two efficiency cores. The two selections
///   of efficiency cores alone fall back to all performance cores.
/// - Efficiency: the first efficiency cores, as many as the tier allows.
/// - Emergency: the first two efficiency cores.
///
/// Where the layout has fewer cores of a group than asked for, all of that
/// group are taken.
pub open spec fn cores_for(mode: ThermalMode, topology: TopologyView, strategy: CoreSelection) -> Seq<
    usize,
> {
    match mode {
        ThermalMode::ColdStart => topology.perf_cores,
        ThermalMode::Sustained => match strategy {
            CoreSelection::SinglePerf => first_up_to(topology.perf_cores, 1),
            CoreSelection::HybridPerfLittle => first_up_to(topology.perf_cores, 1) + first_up_to(
                topology.little_cores,
                FEW_LITTLE_CORES as nat,
            ),
            _ => topology.perf_cores,
        },
        ThermalMode::Efficiency => first_up_to(
            topology.little_cores,
            efficiency_core_limit(topology.soc_class),
        ),
        ThermalMode::Emergency => first_up_to(topology.little_cores, FEW_LITTLE_CORES as nat),
    }
}

/// Number of worker threads for a core set: one per core, and one where the
/// set is empty.
pub open spec fn threads_for(cores: Seq<usize>) -> nat {
    if cores.len() == 0 {
        1
    } else {
        cores.len()
    }
}

/// Appends the first `n` entries of `from`, or all of them where it has
/// fewer, to `into`.
fn append_first(into: &mut Vec<usize>, from: &Vec<usize>, n: usize)
    ensures
        final(into)@ == old(into)@ + first_up_to(from@, n as nat),
{
    let count = if n <= from.len() {
        n
    } else {
        from.len()
    };
    let mut i: usize = 0;
    while i < count
        invariant
            i <= count <= from@.len(),
            into@ == old(into)@ + from@.take(i as int),
        decreases count - i,
    {
        into.push(from[i]);
        i += 1;
    }
    proof {
        assert(from@.take(from@.len() as int) =~= from@);
    }
}

/// The cores that carry the load in `mode` on a chip of layout `topology`
/// whose policy selects `strategy` for sustained load.
pub fn select_cores(mode: ThermalMode, topology: &CpuTopology, strategy: CoreSelection) -> (cores:
    Vec<usize>)
    ensures
        cores@ == cores_for(mode, topology@, strategy),
{
    let mut cores: Vec<usize> = Vec::new();
    match mode {
        ThermalMode::ColdStart => {
            append_first(&mut cores, &topology.perf_cores, topology.perf_cores.len());
        },
        ThermalMode::Sustained => {
            match strategy {
                CoreSelection::SinglePerf => {
                    append_first(&mut cores, &topology.perf_cores, 1);
                },
                CoreSelection::HybridPerfLittle => {
                    append_first(&mut cores, &topology.perf_cores, 1);
                    append_first(&mut cores, &topology.little_cores, FEW_LITTLE_CORES);
                },
                _ => {
                    append_first(&mut cores, &topology.perf_cores, topology.perf_cores.len());
                },
            }
        },
        ThermalMode::Efficiency => {
            let count: usize = match topology.soc_class {
                SocClass::Flagship => COOLING_CORES,
                SocClass::HighEnd => COOLING_CORES,
                SocClass::MidRange => COOLING_CORES,
                SocClass::LowEnd => LOW_END_COOLING_CORES,
            };
            append_first(&mut cores, &topology.little_cores, count);
        },
        ThermalMode::Emergency => {
            append_first(&mut cores, &topology.little_cores, FEW_LITTLE_CORES);
        },
    }
    proof {
        assert(topology.perf_cores@.take(topology.perf_cores@.len() as int)
            =~= topology.perf_cores@);
        assert(cores@ =~= cores_for(mode, topology@, strategy));
    }
    cores
}

/// Every mode, on every layout and under every strategy, asks for at least
/// one thread, also where the layout has no core of the group that the mode
/// draws on.
pub proof fn lemma_at_least_one_thread(
    mode: ThermalMode,
    topology: TopologyView,
    strategy: CoreSelection,
)
    ensures
        threads_for(cores_for(mode, topology, strategy)) >= 1,
{
}

} // verus!
