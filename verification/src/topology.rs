//! Core topology of a system-on-chip: which cores are prime, performance and
//! efficiency cores, worked out from the maximum clock frequency of each.

use vstd::prelude::*;
use crate::probe::{
    collect_readings, lemma_readable_cores_are_distinct, probed_files, readable_cores,
};
use crate::soc::{
    tier_of, SocClass, BIG_CHIP_CORES, FLAGSHIP_MIN_KHZ, HIGH_END_MIN_KHZ, MID_RANGE_MIN_KHZ,
};
use crate::sorting::{
    fastest_first, is_max_freq, landing_index, lemma_fastest_first_permutes, lemma_fastest_first_starts_with_max, lemma_insert_is_insertion,
    sort_fastest_first, CoreFreq,
};

verus! {

/// Frequency spread, in kHz, below which a low-end chip counts as
/// homogeneous.
pub const HOMOGENEOUS_SPREAD_KHZ: u64 = 200_000;

/// The core layout of a chip.
#[derive(Debug, Clone)]
pub struct CpuTopology {
    /// The single highest-clocked core, on chips that set one apart.
    pub prime_core: Option<usize>,
    /// Performance cores; detection lists them fastest first.
    pub perf_cores: Vec<usize>,
    /// Efficiency cores; detection lists them fastest first.
    pub little_cores: Vec<usize>,
    /// Capability tier of the chip.
    pub soc_class: SocClass,
}

/// Mathematical model of a [`CpuTopology`].
pub struct TopologyView {
    pub prime_core: Option<usize>,
    pub perf_cores: Seq<usize>,
    pub little_cores: Seq<usize>,
    pub soc_class: SocClass,
}

impl View for CpuTopology {
    type V = TopologyView;

    open spec fn view(&self) -> TopologyView {
        TopologyView {
            prime_core: self.prime_core,
            perf_cores: self.perf_cores@,
            little_cores: self.little_cores@,
            soc_class: self.soc_class,
        }
    }
}

impl TopologyView {
    /// Every core of the layout: the prime core if there is one, then the
    /// performance cores, then the efficiency cores.
    pub open spec fn all_cores(self) -> Seq<usize> {
        let prime = match self.prime_core {
            Some(core) => seq![core],
            None => Seq::<usize>::empty(),
        };
        prime + self.perf_cores + self.little_cores
    }
}

/// The indices of the cores of `s`, in order.
pub open spec fn core_ids(s: Seq<CoreFreq>) -> Seq<usize> {
    s.map_values(|c: CoreFreq| c.0)
}

/// Test for a core that runs at `floor` kHz or more.
pub open spec fn at_least(floor: int) -> spec_fn(CoreFreq) -> bool {
    |c: CoreFreq| c.1 >= floor
}

/// Test for a core that runs below `floor` kHz.
pub open spec fn below(floor: int) -> spec_fn(CoreFreq) -> bool {
    |c: CoreFreq| c.1 < floor
}

/// Prime core, performance cores and efficiency cores of a chip of tier
/// `class` whose cores are `cores`, fastest first.
///
/// With `max` the frequency of the first core and `range` its distance to
/// that of the last:
/// - flagship: the fastest core, which always reaches the prime threshold
///   `max - range / 20`, is the prime core; of the others, those at or above
///   `max - range / 3` are performance cores;
/// - high-end and mid-range: no prime core; the cores at or above
///   `max - range / 4` are performance cores;
/// - low-end: with a range under 200 MHz every core is a performance core;
///   otherwise the faster half (rounded down) is.
pub open spec fn partition_of(cores: Seq<CoreFreq>, class: SocClass) -> (
    Option<usize>,
    Seq<usize>,
    Seq<usize>,
)
    recommends
        cores.len() > 0,
        cores[0].1 >= cores.last().1,
{
    let max = cores[0].1 as int;
    let range = max - cores.last().1;
    match class {
        SocClass::Flagship => {
            let floor = max - range / 3;
            let rest = cores.skip(1);
            (
                Some(cores[0].0),
                core_ids(rest.filter(at_least(floor))),
                core_ids(rest.filter(below(floor))),
            )
        },
        SocClass::HighEnd | SocClass::MidRange => {
            let floor = max - range / 4;
            (None, core_ids(cores.filter(at_least(floor))), core_ids(cores.filter(below(floor))))
        },
        SocClass::LowEnd => {
            if range < HOMOGENEOUS_SPREAD_KHZ {
                (None, core_ids(cores), Seq::empty())
            } else {
                let mid = cores.len() as int / 2;
                (None, core_ids(cores.take(mid)), core_ids(cores.skip(mid)))
            }
        },
    }
}

/// The layout assumed when no core could be probed: four performance cores,
/// four efficiency cores, mid-range tier.
pub open spec fn fallback_view() -> TopologyView {
    TopologyView {
        prime_core: None,
        perf_cores: seq![0usize, 1, 2, 3],
        little_cores: seq![4usize, 5, 6, 7],
        soc_class: SocClass::MidRange,
    }
}

/// The layout detected from the probed cores `readings`.
pub open spec fn detected_view(readings: Seq<CoreFreq>) -> TopologyView {
    if readings.len() == 0 {
        fallback_view()
    } else {
        let sorted = fastest_first(readings);
        let class = tier_of(sorted[0].1, sorted.len());
        let parts = partition_of(sorted, class);
        TopologyView {
            prime_core: parts.0,
            perf_cores: parts.1,
            little_cores: parts.2,
            soc_class: class,
        }
    }
}

/// Filtering one entry more either appends that entry or changes nothing.
proof fn lemma_filter_step(s: Seq<CoreFreq>, pred: spec_fn(CoreFreq) -> bool, k: int)
    requires
        0 <= k < s.len(),
    ensures
        s.take(k + 1).filter(pred) == if pred(s[k]) {
            s.take(k).filter(pred).push(s[k])
        } else {
            s.take(k).filter(pred)
        },
{
    assert(s.take(k + 1) =~= s.take(k).push(s[k]));
    s.take(k).lemma_filter_push(s[k], pred);
}

/// The indices of a sequence with one core more are the indices of the
/// sequence with the index of that core appended.
proof fn lemma_ids_push(s: Seq<CoreFreq>, c: CoreFreq)
    ensures
        core_ids(s.push(c)) == core_ids(s).push(c.0),
{
    assert(core_ids(s.push(c)) =~= core_ids(s).push(c.0));
}

/// Copies the core indices of `cores[from..to]`.
fn ids_between(cores: &[CoreFreq], from: usize, to: usize) -> (ids: Vec<usize>)
    requires
        from <= to <= cores.len(),
    ensures
        ids@ == core_ids(cores@.subrange(from as int, to as int)),
{
    let mut ids: Vec<usize> = Vec::new();
    let mut i: usize = from;
    while i < to
        invariant
            from <= i <= to <= cores.len(),
            ids@ == core_ids(cores@.subrange(from as int, i as int)),
        decreases to - i,
    {
        proof {
            lemma_ids_push(cores@.subrange(from as int, i as int), cores@[i as int]);
            assert(cores@.subrange(from as int, i + 1) =~= cores@.subrange(
                from as int,
                i as int,
            ).push(cores@[i as int]));
        }
        ids.push(cores[i].0);
        i += 1;
    }
    ids
}

/// Splits `cores[from..]` at `floor`: the indices of the cores at or above
/// it, and those of the cores below it.
fn split_at_floor(cores: &[CoreFreq], from: usize, floor: u64) -> (parts: (Vec<usize>, Vec<usize>))
    requires
        from <= cores.len(),
    ensures
        parts.0@ == core_ids(cores@.skip(from as int).filter(at_least(floor as int))),
        parts.1@ == core_ids(cores@.skip(from as int).filter(below(floor as int))),
{
    let mut perf: Vec<usize> = Vec::new();
    let mut little: Vec<usize> = Vec::new();
    let ghost rest = cores@.skip(from as int);
    let mut i: usize = from;
    proof {
        reveal(Seq::filter);
        assert(rest.take(0).len() == 0);
    }
    while i < cores.len()
        invariant
            from <= i <= cores.len(),
            rest == cores@.skip(from as int),
            perf@ == core_ids(rest.take(i - from).filter(at_least(floor as int))),
            little@ == core_ids(rest.take(i - from).filter(below(floor as int))),
        decreases cores.len() - i,
    {
        let (cpu, freq) = cores[i];
        proof {
            let k = i - from;
            assert(rest[k] == cores@[i as int]);
            lemma_filter_step(rest, at_least(floor as int), k);
            lemma_filter_step(rest, below(floor as int), k);
            lemma_ids_push(rest.take(k).filter(at_least(floor as int)), rest[k]);
            lemma_ids_push(rest.take(k).filter(below(floor as int)), rest[k]);
        }
        if freq >= floor {
            perf.push(cpu);
        } else {
            little.push(cpu);
        }
        i += 1;
    }
    proof {
        assert(rest.take(cores.len() - from) =~= rest);
    }
    (perf, little)
}

impl CpuTopology {
    /// Works out the layout of a chip from its probed frequency files.
    /// `files[i]` is what the maximum-frequency file of core `i` holds, or
    /// nothing where it could not be read; files from index 16 on are not
    /// looked at.
    ///
    /// The cores whose file holds a frequency are the probed cores; the
    /// layout is the one that [`from_readings`](Self::from_readings) gives
    /// for them.
    pub fn detect(files: &[Option<String>]) -> (topology: CpuTopology)
        ensures
            topology@ == detected_view(readable_cores(probed_files(files@))),
            topology@.all_cores().no_duplicates(),
            readable_cores(probed_files(files@)).len() > 0 ==> topology@.all_cores().to_multiset()
                == core_ids(readable_cores(probed_files(files@))).to_multiset(),
    {
        let readings = collect_readings(files);
        proof {
            if readings@.len() > 0 {
                lemma_detection_partitions_readable_cores(files@);
            } else {
                assert(fallback_view().all_cores() =~= seq![0usize, 1, 2, 3, 4, 5, 6, 7]);
            }
        }
        Self::from_readings(readings.as_slice())
    }

    /// Works out the layout of a chip from the cores that could be probed,
    /// each with its index and maximum frequency in kHz.
    ///
    /// With no core probed the result is the fallback layout. Otherwise the
    /// cores are ordered from the fastest to the slowest, the tier follows
    /// from the highest frequency and the number of cores, and the cores are
    /// split by the rule of that tier.
    pub fn from_readings(readings: &[CoreFreq]) -> (topology: CpuTopology)
        ensures
            topology@ == detected_view(readings@),
            readings@.len() > 0 ==> topology@.all_cores().to_multiset() == core_ids(
                readings@,
            ).to_multiset(),
    {
        if readings.len() == 0 {
            return Self::fallback();
        }
        let sorted = sort_fastest_first(readings);
        proof {
            lemma_fastest_first_permutes(readings@);
            lemma_detection_partitions_probed_cores(readings@);
        }
        let max_freq = sorted[0].1;
        let num_cores = sorted.len();
        let soc_class = Self::classify_soc(max_freq, num_cores);
        let (prime_core, perf_cores, little_cores) = Self::parse_topology(
            sorted.as_slice(),
            soc_class,
        );
        CpuTopology { prime_core, perf_cores, little_cores, soc_class }
    }

    /// The tier of a chip whose fastest core runs at `max_freq` kHz and
    /// which has `num_cores` cores.
    pub fn classify_soc(max_freq: u64, num_cores: usize) -> (class: SocClass)
        ensures
            class == tier_of(max_freq, num_cores as nat),
    {
        if max_freq > FLAGSHIP_MIN_KHZ && num_cores >= BIG_CHIP_CORES {
            SocClass::Flagship
        } else if max_freq > HIGH_END_MIN_KHZ && num_cores >= BIG_CHIP_CORES {
            SocClass::HighEnd
        } else if max_freq > MID_RANGE_MIN_KHZ {
            SocClass::MidRange
        } else {
            SocClass::LowEnd
        }
    }

    /// Splits the cores of a chip of tier `soc_class` into the prime core,
    /// the performance cores and the efficiency cores.
    ///
    /// `cores_with_freq` lists the cores from the fastest to the slowest; the
    /// first entry must not be slower than the last.
    pub fn parse_topology(cores_with_freq: &[CoreFreq], soc_class: SocClass) -> (parts: (
        Option<usize>,
        Vec<usize>,
        Vec<usize>,
    ))
        requires
            cores_with_freq@.len() > 0,
            cores_with_freq@[0].1 >= cores_with_freq@.last().1,
        ensures
            (parts.0, parts.1@, parts.2@) == partition_of(cores_with_freq@, soc_class),
    {
        let max_freq = cores_with_freq[0].1;
        let min_freq = cores_with_freq[cores_with_freq.len() - 1].1;
        let freq_range = max_freq - min_freq;
        match soc_class {
            SocClass::Flagship => {
                let prime_threshold = max_freq - freq_range / 20;
                let perf_threshold = max_freq - freq_range / 3;
                // The first core runs at `max_freq`, so it always qualifies.
                let prime = if cores_with_freq[0].1 >= prime_threshold {
                    Some(cores_with_freq[0].0)
                } else {
                    None
                };
                let (perf, little) = split_at_floor(cores_with_freq, 1, perf_threshold);
                (prime, perf, little)
            },
            SocClass::HighEnd | SocClass::MidRange => {
                let perf_threshold = max_freq - freq_range / 4;
                let (perf, little) = split_at_floor(cores_with_freq, 0, perf_threshold);
                proof {
                    assert(cores_with_freq@.skip(0) =~= cores_with_freq@);
                }
                (None, perf, little)
            },
            SocClass::LowEnd => {
                if freq_range < HOMOGENEOUS_SPREAD_KHZ {
                    let all_cores = ids_between(cores_with_freq, 0, cores_with_freq.len());
                    proof {
                        assert(cores_with_freq@.subrange(0, cores_with_freq@.len() as int)
                            =~= cores_with_freq@);
                    }
                    (None, all_cores, Vec::new())
                } else {
                    let mid = cores_with_freq.len() / 2;
                    let perf = ids_between(cores_with_freq, 0, mid);
                    let little = ids_between(cores_with_freq, mid, cores_with_freq.len());
                    (None, perf, little)
                }
            },
        }
    }

    /// The layout assumed when no core could be probed.
    pub fn fallback() -> (topology: CpuTopology)
        ensures
            topology@ == fallback_view(),
    {
        let mut perf_cores: Vec<usize> = Vec::new();
        let mut little_cores: Vec<usize> = Vec::new();
        let mut cpu: usize = 0;
        while cpu < 4
            invariant
                cpu <= 4,
                perf_cores@ == Seq::new(cpu as nat, |i: int| i as usize),
                little_cores@ == Seq::new(cpu as nat, |i: int| (i + 4) as usize),
            decreases 4 - cpu,
        {
            perf_cores.push(cpu);
            little_cores.push(cpu + 4);
            cpu += 1;
        }
        proof {
            assert(perf_cores@ =~= seq![0usize, 1, 2, 3]);
            assert(little_cores@ =~= seq![4usize, 5, 6, 7]);
        }
        CpuTopology { prime_core: None, perf_cores, little_cores, soc_class: SocClass::MidRange }
    }
}

/// The cores at or above a floor together with those below it are the cores
/// that were split, each as often as before.
proof fn lemma_split_permutes(s: Seq<CoreFreq>, floor: int)
    ensures
        (core_ids(s.filter(at_least(floor))) + core_ids(s.filter(below(floor)))).to_multiset()
            == core_ids(s).to_multiset(),
    decreases s.len(),
{
    broadcast use vstd::seq_lib::to_multiset_build, vstd::seq_lib::lemma_multiset_commutative;

    let upper = at_least(floor);
    let lower = below(floor);
    if s.len() == 0 {
        reveal(Seq::filter);
        assert(core_ids(s.filter(upper)) + core_ids(s.filter(lower)) =~= core_ids(s));
    } else {
        let front = s.drop_last();
        let c = s.last();
        lemma_split_permutes(front, floor);
        assert(front.push(c) =~= s);
        front.lemma_filter_push(c, upper);
        front.lemma_filter_push(c, lower);
        lemma_ids_push(front, c);
        lemma_ids_push(front.filter(upper), c);
        lemma_ids_push(front.filter(lower), c);
        assert(core_ids(s).to_multiset() =~= core_ids(front).to_multiset().insert(c.0));
        if upper(c) {
            assert((core_ids(s.filter(upper)) + core_ids(s.filter(lower))).to_multiset()
                =~= (core_ids(front.filter(upper)) + core_ids(front.filter(lower))).to_multiset().insert(
                c.0,
            ));
        } else {
            assert(core_ids(s.filter(upper)) + core_ids(s.filter(lower)) =~= (core_ids(
                front.filter(upper),
            ) + core_ids(front.filter(lower))).push(c.0));
        }
    }
}

/// Splitting by tier places every core exactly once.
pub proof fn lemma_partition_places_every_core(cores: Seq<CoreFreq>, class: SocClass)
    requires
        cores.len() > 0,
    ensures
        ({
            let parts = partition_of(cores, class);
            (TopologyView {
                prime_core: parts.0,
                perf_cores: parts.1,
                little_cores: parts.2,
                soc_class: class,
            }).all_cores().to_multiset() == core_ids(cores).to_multiset()
        }),
{
    broadcast use vstd::seq_lib::lemma_multiset_commutative;

    let parts = partition_of(cores, class);
    let all = (TopologyView {
        prime_core: parts.0,
        perf_cores: parts.1,
        little_cores: parts.2,
        soc_class: class,
    }).all_cores();
    let max = cores[0].1 as int;
    let range = max - cores.last().1;
    match class {
        SocClass::Flagship => {
            let rest = cores.skip(1);
            lemma_split_permutes(rest, max - range / 3);
            assert(all =~= seq![cores[0].0] + (parts.1 + parts.2));
            assert(core_ids(cores) =~= seq![cores[0].0] + core_ids(rest));
        },
        SocClass::HighEnd | SocClass::MidRange => {
            lemma_split_permutes(cores, max - range / 4);
            assert(all =~= parts.1 + parts.2);
        },
        SocClass::LowEnd => {
            assert(all =~= core_ids(cores));
        },
    }
}

/// Ordering the cores by frequency keeps their indices, each as often as
/// before.
proof fn lemma_sorted_ids_permute(s: Seq<CoreFreq>)
    ensures
        core_ids(fastest_first(s)).to_multiset() == core_ids(s).to_multiset(),
    decreases s.len(),
{
    broadcast use vstd::seq_lib::to_multiset_build, vstd::seq_lib::to_multiset_insert;

    if s.len() > 0 {
        let front = s.drop_last();
        let sorted = fastest_first(front);
        lemma_sorted_ids_permute(front);
        lemma_insert_is_insertion(sorted, s.last());
        let at = landing_index(sorted, s.last());
        assert(core_ids(sorted.insert(at, s.last())) =~= core_ids(sorted).insert(at, s.last().0));
        assert(core_ids(s) =~= core_ids(front).push(s.last().0));
    }
}

/// Detection places every probed core in exactly one of the three groups:
/// prime, performance and efficiency cores together hold the probed indices,
/// each as often as it was probed, so their number is the number of probed
/// cores, and no index is repeated where none was probed twice.
pub proof fn lemma_detection_partitions_probed_cores(readings: Seq<CoreFreq>)
    requires
        readings.len() > 0,
    ensures
        detected_view(readings).all_cores().to_multiset() == core_ids(readings).to_multiset(),
        detected_view(readings).all_cores().len() == readings.len(),
        core_ids(readings).no_duplicates() ==> detected_view(readings).all_cores().no_duplicates(),
{
    broadcast use vstd::seq_lib::to_multiset_len;

    let sorted = fastest_first(readings);
    let all = detected_view(readings).all_cores();
    lemma_fastest_first_permutes(readings);
    lemma_sorted_ids_permute(readings);
    lemma_partition_places_every_core(sorted, tier_of(sorted[0].1, sorted.len()));
    assert(all.len() == all.to_multiset().len());
    assert(core_ids(readings).len() == core_ids(readings).to_multiset().len());
    if core_ids(readings).no_duplicates() {
        core_ids(readings).lemma_multiset_has_no_duplicates();
        all.lemma_multiset_has_no_duplicates_conv();
    }
}

/// Whatever the frequency files hold, as long as one of them holds a
/// frequency, detection places every core that could be read in exactly one
/// of the three groups, and none twice.
pub proof fn lemma_detection_partitions_readable_cores(files: Seq<Option<String>>)
    requires
        readable_cores(probed_files(files)).len() > 0,
    ensures
        ({
            let cores = readable_cores(probed_files(files));
            let layout = detected_view(cores);
            &&& layout.all_cores().to_multiset() == core_ids(cores).to_multiset()
            &&& layout.all_cores().len() == cores.len()
            &&& layout.all_cores().no_duplicates()
        }),
{
    lemma_readable_cores_are_distinct(probed_files(files));
    lemma_detection_partitions_probed_cores(readable_cores(probed_files(files)));
}

/// Detection never gives an empty layout: with no core probed it gives the
/// eight cores of the fallback layout.
pub proof fn lemma_detected_layout_is_never_empty(readings: Seq<CoreFreq>)
    ensures
        detected_view(readings).all_cores().len() > 0,
        readings.len() == 0 ==> detected_view(readings) == fallback_view(),
{
    if readings.len() > 0 {
        lemma_detection_partitions_probed_cores(readings);
    }
}

/// The tier that detection assigns depends on the probed cores only through
/// their highest frequency and their number.
pub proof fn lemma_tier_follows_from_max_and_count(readings: Seq<CoreFreq>, max_freq: u64)
    requires
        readings.len() > 0,
        is_max_freq(readings, max_freq),
    ensures
        detected_view(readings).soc_class == tier_of(max_freq, readings.len()),
{
    lemma_fastest_first_starts_with_max(readings);
    lemma_fastest_first_permutes(readings);
}

} // verus!
