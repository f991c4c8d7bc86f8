use thermal_affinity::window::{is_throttled, push_sample, sum_samples};
use thermal_affinity::{CpuTopology, SocClass, ThermalMode, UnifiedThermalManager};

fn flagship() -> CpuTopology {
    CpuTopology {
        prime_core: Some(7),
        perf_cores: vec![3, 4, 5, 6],
        little_cores: vec![0, 1, 2],
        soc_class: SocClass::Flagship,
    }
}

fn high_end() -> CpuTopology {
    CpuTopology {
        prime_core: None,
        perf_cores: vec![4, 5, 6, 7],
        little_cores: vec![0, 1, 2, 3],
        soc_class: SocClass::HighEnd,
    }
}

fn mid_range() -> CpuTopology {
    CpuTopology::fallback()
}

fn low_end() -> CpuTopology {
    CpuTopology {
        prime_core: None,
        perf_cores: vec![4, 5, 6, 7],
        little_cores: vec![0, 1, 2, 3],
        soc_class: SocClass::LowEnd,
    }
}

fn chip(tier: SocClass) -> CpuTopology {
    match tier {
        SocClass::Flagship => flagship(),
        SocClass::HighEnd => high_end(),
        SocClass::MidRange => mid_range(),
        SocClass::LowEnd => low_end(),
    }
}

const TIERS: [SocClass; 4] =
    [SocClass::Flagship, SocClass::HighEnd, SocClass::MidRange, SocClass::LowEnd];

/// A controller under sustained load, entered at clock reading 0.
fn sustained(tier: SocClass) -> UnifiedThermalManager {
    let mut m = UnifiedThermalManager::new(chip(tier));
    assert_eq!(m.update_at(0, 6_000, 1_000).mode, ThermalMode::Sustained);
    m
}

/// A controller that cools, entered at clock reading 0.
fn cooling(tier: SocClass) -> UnifiedThermalManager {
    let mut m = sustained(tier);
    assert_eq!(m.update_at(0, 13_000, 1_000).mode, ThermalMode::Efficiency);
    m
}

/// A controller under sustained load with a baseline of 2.0, entered at
/// clock reading 0.
fn sustained_with_baseline(tier: SocClass) -> UnifiedThermalManager {
    let mut m = UnifiedThermalManager::new(chip(tier));
    assert_eq!(m.update_at(0, 6_000, 2_000).mode, ThermalMode::Sustained);
    for _ in 0..4 {
        assert_eq!(m.update_at(0, 5_000, 2_000).mode, ThermalMode::Sustained);
    }
    assert_eq!(m.baseline_rtf(), Some(10_000));
    m
}

/// A controller that cools and reads a throttled window, entered at clock
/// reading 0.
fn cooling_and_throttled(tier: SocClass) -> UnifiedThermalManager {
    let mut m = sustained_with_baseline(tier);
    for _ in 0..4 {
        assert_eq!(m.update_at(0, 5_000, 1_000).mode, ThermalMode::Sustained);
    }
    assert_eq!(m.update_at(0, 5_000, 1_000).mode, ThermalMode::Efficiency);
    assert!(m.detect_throttling());
    m
}

#[test]
fn fresh_controller_is_in_cold_start() {
    for tier in TIERS {
        let m = UnifiedThermalManager::new(chip(tier));
        assert_eq!(m.get_current_mode(), ThermalMode::ColdStart);
        assert_eq!(m.get_soc_class(), tier);
        assert_eq!(m.high_power_usage_time(), 0);
        assert_eq!(m.baseline_rtf(), None);
        assert!(!m.detect_throttling());
    }
}

#[test]
fn flagship_buffer_walk() {
    let mut m = UnifiedThermalManager::new(flagship());
    assert_eq!(m.get_current_mode(), ThermalMode::ColdStart);
    assert_eq!(m.update_at(0, 6_000, 1_000).mode, ThermalMode::Sustained);
    assert_eq!(m.get_current_mode(), ThermalMode::Sustained);
    assert_eq!(m.update_at(0, 13_000, 1_000).mode, ThermalMode::Efficiency);
    assert_eq!(m.get_current_mode(), ThermalMode::Efficiency);
    assert_eq!(m.update_at(0, 1_000, 1_000).mode, ThermalMode::Sustained);
    assert_eq!(m.get_current_mode(), ThermalMode::Sustained);
}

#[test]
fn flagship_buffer_walk_on_the_controller_clock() {
    let mut m = UnifiedThermalManager::new(flagship());
    assert_eq!(m.update(6_000, 1_000).mode, ThermalMode::Sustained);
    assert_eq!(m.update(13_000, 1_000).mode, ThermalMode::Efficiency);
    assert_eq!(m.update(1_000, 1_000).mode, ThermalMode::Sustained);
    assert_eq!(m.get_current_mode(), ThermalMode::Sustained);
}

#[test]
fn mid_range_throttling_ends_sustained_load() {
    let mut m = UnifiedThermalManager::new(mid_range());
    assert_eq!(m.update_at(0, 6_000, 2_000).mode, ThermalMode::Sustained);
    for _ in 0..4 {
        assert_eq!(m.update_at(0, 5_000, 2_000).mode, ThermalMode::Sustained);
    }
    assert_eq!(m.baseline_rtf(), Some(10_000));
    assert!(!m.detect_throttling());
    for _ in 0..4 {
        let outcome = m.update_at(0, 5_000, 1_000);
        assert_eq!(outcome.mode, ThermalMode::Sustained);
        assert_eq!(outcome.affinity, None);
        assert!(!m.detect_throttling());
    }
    let outcome = m.update_at(0, 5_000, 1_000);
    assert!(m.detect_throttling());
    assert_eq!(outcome.mode, ThermalMode::Efficiency);
    assert_eq!(outcome.affinity, Some(vec![4, 5, 6, 7]));
}

#[test]
fn update_names_cores_only_when_the_mode_changes() {
    let mut m = UnifiedThermalManager::new(flagship());
    let stay = m.update_at(0, 5_000, 1_000);
    assert_eq!(stay.mode, ThermalMode::ColdStart);
    assert_eq!(stay.affinity, None);
    let go = m.update_at(0, 5_001, 1_000);
    assert_eq!(go.mode, ThermalMode::Sustained);
    assert_eq!(go.affinity, Some(vec![3, 4, 5, 6]));
    let stay = m.update_at(0, 5_001, 1_000);
    assert_eq!(stay.mode, ThermalMode::Sustained);
    assert_eq!(stay.affinity, None);
    let cool = m.update_at(0, 12_001, 1_000);
    assert_eq!(cool.mode, ThermalMode::Efficiency);
    assert_eq!(cool.affinity, Some(vec![0, 1, 2]));
}

#[test]
fn cold_start_ends_above_five_seconds_of_buffer() {
    let mut m = UnifiedThermalManager::new(mid_range());
    assert_eq!(m.update_at(0, 5_000, 1_000).mode, ThermalMode::ColdStart);
    assert_eq!(m.update_at(0, 5_001, 1_000).mode, ThermalMode::Sustained);
}

#[test]
fn cold_start_ends_after_thirty_seconds() {
    let mut m = UnifiedThermalManager::new(mid_range());
    assert_eq!(m.update_at(30_000, 0, 1_000).mode, ThermalMode::ColdStart);
    assert_eq!(m.update_at(30_001, 0, 1_000).mode, ThermalMode::Sustained);
}

#[test]
fn decide_mode_from_cold_start() {
    let m = UnifiedThermalManager::new(low_end());
    assert_eq!(m.decide_mode(0, true, 0), ThermalMode::ColdStart);
    assert_eq!(m.decide_mode(5_000, false, 30_000), ThermalMode::ColdStart);
    assert_eq!(m.decide_mode(5_001, false, 0), ThermalMode::Sustained);
    assert_eq!(m.decide_mode(0, false, 30_001), ThermalMode::Sustained);
}

#[test]
fn decide_mode_from_sustained() {
    let m = sustained(SocClass::HighEnd);
    assert_eq!(m.decide_mode(2_499, false, 0), ThermalMode::ColdStart);
    assert_eq!(m.decide_mode(2_499, true, 1_000_000), ThermalMode::ColdStart);
    assert_eq!(m.decide_mode(2_500, false, 1_000_000), ThermalMode::Sustained);
    assert_eq!(m.decide_mode(10_000, false, 0), ThermalMode::Sustained);
    assert_eq!(m.decide_mode(10_001, false, 0), ThermalMode::Efficiency);
    assert_eq!(m.decide_mode(5_000, true, 0), ThermalMode::Efficiency);
}

#[test]
fn decide_mode_from_efficiency() {
    let m = cooling(SocClass::HighEnd);
    assert_eq!(m.decide_mode(2_499, false, 0), ThermalMode::Sustained);
    assert_eq!(m.decide_mode(2_499, true, 0), ThermalMode::Sustained);
    assert_eq!(m.decide_mode(2_500, false, 60_000), ThermalMode::Efficiency);
    assert_eq!(m.decide_mode(2_500, false, 60_001), ThermalMode::Sustained);
    assert_eq!(m.decide_mode(9_999, true, 60_001), ThermalMode::Sustained);
    assert_eq!(m.decide_mode(10_000, false, 60_001), ThermalMode::Efficiency);
    assert_eq!(m.decide_mode(10_000, true, 60_001), ThermalMode::Emergency);
    assert_eq!(m.decide_mode(5_000, true, 0), ThermalMode::Emergency);
}

#[test]
fn decide_mode_from_emergency() {
    let mut m = cooling_and_throttled(SocClass::HighEnd);
    assert_eq!(m.update_at(0, 5_000, 1_000).mode, ThermalMode::Emergency);
    assert_eq!(m.decide_mode(0, false, 120_000), ThermalMode::Emergency);
    assert_eq!(m.decide_mode(0, false, 120_001), ThermalMode::Efficiency);
    assert_eq!(m.decide_mode(0, true, 120_001), ThermalMode::Emergency);
    assert_eq!(m.decide_mode(0, true, u64::MAX), ThermalMode::Emergency);
}

#[test]
fn low_buffer_wins_under_sustained_load_in_every_tier() {
    for tier in TIERS {
        let low = thermal_affinity::ThermalConfig::for_soc_class(tier).buffer_low_threshold;
        let mut calm = sustained(tier);
        assert_eq!(calm.update_at(1_000_000, low - 1, 1_000).mode, ThermalMode::ColdStart);
        let mut hot = sustained_with_baseline(tier);
        for _ in 0..2 {
            assert_eq!(hot.update_at(0, 5_000, 1).mode, ThermalMode::Sustained);
            assert!(!hot.detect_throttling());
        }
        let outcome = hot.update_at(1_000_000, low - 1, 1);
        assert!(hot.detect_throttling());
        assert_eq!(outcome.mode, ThermalMode::ColdStart);
    }
}

#[test]
fn low_buffer_wins_while_cooling_in_every_tier() {
    for tier in TIERS {
        let low = thermal_affinity::ThermalConfig::for_soc_class(tier).buffer_low_threshold;
        let mut calm = cooling(tier);
        assert_eq!(calm.update_at(0, low - 1, 1_000).mode, ThermalMode::Sustained);
        let mut hot = cooling_and_throttled(tier);
        let outcome = hot.update_at(0, low - 1, 1_000);
        assert!(hot.detect_throttling());
        assert_eq!(outcome.mode, ThermalMode::Sustained);
    }
}

#[test]
fn buffer_at_the_low_threshold_is_not_low() {
    for tier in TIERS {
        let low = thermal_affinity::ThermalConfig::for_soc_class(tier).buffer_low_threshold;
        let mut m = sustained(tier);
        assert_eq!(m.update_at(0, low, 1_000).mode, ThermalMode::Sustained);
    }
}

#[test]
fn thermal_budget_counts_time_since_the_mode_was_entered() {
    let mut m = UnifiedThermalManager::new(mid_range());
    assert_eq!(m.update_at(1_000, 0, 1_000).mode, ThermalMode::ColdStart);
    assert_eq!(m.high_power_usage_time(), 1_000);
    assert_eq!(m.update_at(3_000, 0, 1_000).mode, ThermalMode::ColdStart);
    assert_eq!(m.high_power_usage_time(), 4_000);
    assert_eq!(m.update_at(3_000, 6_000, 1_000).mode, ThermalMode::Sustained);
    assert_eq!(m.high_power_usage_time(), 7_000);
    assert_eq!(m.update_at(13_000, 6_000, 1_000).mode, ThermalMode::Sustained);
    assert_eq!(m.high_power_usage_time(), 17_000);
}

#[test]
fn thermal_budget_is_cleared_on_entering_efficiency() {
    let mut m = sustained(SocClass::MidRange);
    assert_eq!(m.update_at(50_000, 5_000, 1_000).mode, ThermalMode::Sustained);
    assert_eq!(m.high_power_usage_time(), 50_000);
    assert_eq!(m.update_at(60_000, 5_000, 1_000).mode, ThermalMode::Efficiency);
    assert_eq!(m.high_power_usage_time(), 0);
}

#[test]
fn thermal_budget_of_exactly_the_limit_is_not_exhausted() {
    let mut m = sustained(SocClass::MidRange);
    assert_eq!(m.update_at(90_000, 5_000, 1_000).mode, ThermalMode::Sustained);
    assert_eq!(m.high_power_usage_time(), 90_000);
    let mut m = sustained(SocClass::MidRange);
    assert_eq!(m.update_at(90_001, 5_000, 1_000).mode, ThermalMode::Efficiency);
}

#[test]
fn thermal_budget_does_not_move_while_cooling() {
    let mut m = cooling(SocClass::Flagship);
    assert_eq!(m.high_power_usage_time(), 0);
    assert_eq!(m.update_at(40_000, 12_500, 1_000).mode, ThermalMode::Efficiency);
    assert_eq!(m.high_power_usage_time(), 0);
    assert_eq!(m.update_at(45_000, 5_000, 1_000).mode, ThermalMode::Efficiency);
    assert_eq!(m.high_power_usage_time(), 0);
    assert_eq!(m.update_at(45_001, 5_000, 1_000).mode, ThermalMode::Sustained);
    assert_eq!(m.high_power_usage_time(), 0);
    assert_eq!(m.update_at(45_011, 5_000, 1_000).mode, ThermalMode::Sustained);
    assert_eq!(m.high_power_usage_time(), 10);
}

#[test]
fn thermal_budget_survives_the_way_back_to_cold_start() {
    let mut m = sustained(SocClass::LowEnd);
    assert_eq!(m.update_at(10_000, 1_000, 1_000).mode, ThermalMode::ColdStart);
    assert_eq!(m.high_power_usage_time(), 10_000);
    assert_eq!(m.update_at(10_500, 1_000, 1_000).mode, ThermalMode::ColdStart);
    assert_eq!(m.high_power_usage_time(), 10_500);
}

#[test]
fn thermal_budget_stops_at_the_largest_value() {
    let mut m = UnifiedThermalManager::new(mid_range());
    assert_eq!(m.update_at(20, 0, 1_000).mode, ThermalMode::ColdStart);
    assert_eq!(m.update_at(20, 0, 1_000).mode, ThermalMode::ColdStart);
    assert_eq!(m.high_power_usage_time(), 40);
    assert_eq!(m.update_at(u64::MAX, 0, 1_000).mode, ThermalMode::Sustained);
    assert_eq!(m.high_power_usage_time(), u64::MAX);
}

#[test]
fn clock_that_runs_backwards_counts_as_no_time() {
    let mut m = UnifiedThermalManager::new(mid_range());
    assert_eq!(m.update_at(100, 6_000, 1_000).mode, ThermalMode::Sustained);
    assert_eq!(m.high_power_usage_time(), 100);
    assert_eq!(m.update_at(40, 5_000, 1_000).mode, ThermalMode::Sustained);
    assert_eq!(m.high_power_usage_time(), 100);
}

#[test]
fn cooling_ends_after_the_cooldown_when_the_buffer_is_not_full() {
    let mut m = cooling(SocClass::LowEnd);
    assert_eq!(m.update_at(120_000, 5_000, 1_000).mode, ThermalMode::Efficiency);
    assert_eq!(m.update_at(120_001, 8_000, 1_000).mode, ThermalMode::Efficiency);
    assert_eq!(m.update_at(120_001, 7_999, 1_000).mode, ThermalMode::Sustained);
}

#[test]
fn throttling_while_cooling_is_an_emergency() {
    let mut m = cooling_and_throttled(SocClass::MidRange);
    let outcome = m.update_at(0, 5_000, 1_000);
    assert_eq!(outcome.mode, ThermalMode::Emergency);
    assert_eq!(outcome.affinity, Some(vec![4, 5]));
}

#[test]
fn emergency_lasts_two_minutes_and_until_throttling_ends() {
    let mut m = cooling_and_throttled(SocClass::MidRange);
    assert_eq!(m.update_at(1_000, 5_000, 1_000).mode, ThermalMode::Emergency);
    assert_eq!(m.update_at(121_001, 5_000, 1_000).mode, ThermalMode::Emergency);
    assert_eq!(m.update_at(121_000, 5_000, 2_000).mode, ThermalMode::Emergency);
    for _ in 0..3 {
        assert_eq!(m.update_at(121_000, 5_000, 2_000).mode, ThermalMode::Emergency);
    }
    assert!(!m.detect_throttling());
    assert_eq!(m.update_at(121_001, 5_000, 2_000).mode, ThermalMode::Efficiency);
}

#[test]
fn baseline_is_set_by_the_fifth_sample_and_kept() {
    let mut m = UnifiedThermalManager::new(flagship());
    for (n, rtf) in [1_000u32, 2_000, 3_000, 4_000].into_iter().enumerate() {
        m.update_at(0, 0, rtf);
        assert_eq!(m.baseline_rtf(), None, "after sample {}", n + 1);
    }
    m.update_at(0, 0, 5_000);
    assert_eq!(m.baseline_rtf(), Some(15_000));
    for rtf in [1u32, 100_000, 0, 7, u32::MAX, 3, 3, 3, 3, 3] {
        m.update_at(0, 0, rtf);
        assert_eq!(m.baseline_rtf(), Some(15_000));
    }
}

#[test]
fn baseline_of_the_largest_samples() {
    let mut m = UnifiedThermalManager::new(flagship());
    for _ in 0..5 {
        m.update_at(0, 0, u32::MAX);
    }
    assert_eq!(m.baseline_rtf(), Some(5 * u32::MAX as u64));
    assert!(!m.detect_throttling());
    for _ in 0..5 {
        m.update_at(0, 0, 0);
    }
    assert!(m.detect_throttling());
}

#[test]
fn throttling_needs_a_baseline() {
    let mut m = UnifiedThermalManager::new(flagship());
    for _ in 0..4 {
        m.update_at(0, 0, 0);
        assert!(!m.detect_throttling());
    }
}

#[test]
fn throttling_is_a_mean_below_sixty_percent_of_the_baseline() {
    // Baseline sum 10_000: a window of five is throttled below a sum of
    // 6_000.
    assert!(!is_throttled(Some(10_000), &vec![1_200, 1_200, 1_200, 1_200, 1_200]));
    assert!(is_throttled(Some(10_000), &vec![1_200, 1_200, 1_200, 1_200, 1_199]));
    assert!(!is_throttled(Some(10_000), &vec![2_000, 1_000, 1_000, 1_000, 1_000]));
    assert!(is_throttled(Some(10_000), &vec![1_000, 1_000, 1_000, 1_000, 1_000]));
    // A window of three is throttled below a sum of 3_600.
    assert!(!is_throttled(Some(10_000), &vec![1_200, 1_200, 1_200]));
    assert!(is_throttled(Some(10_000), &vec![1_200, 1_200, 1_199]));
}

#[test]
fn throttling_needs_three_samples() {
    assert!(!is_throttled(Some(10_000), &vec![]));
    assert!(!is_throttled(Some(10_000), &vec![0]));
    assert!(!is_throttled(Some(10_000), &vec![0, 0]));
    assert!(is_throttled(Some(10_000), &vec![0, 0, 0]));
    assert!(!is_throttled(None, &vec![0, 0, 0, 0, 0]));
    assert!(!is_throttled(Some(0), &vec![0, 0, 0, 0, 0]));
}

#[test]
fn window_keeps_the_last_five_samples() {
    let mut w: Vec<u32> = Vec::new();
    for sample in 1..=5u32 {
        push_sample(&mut w, sample);
    }
    assert_eq!(w, vec![1, 2, 3, 4, 5]);
    push_sample(&mut w, 6);
    assert_eq!(w, vec![2, 3, 4, 5, 6]);
    push_sample(&mut w, 7);
    assert_eq!(w, vec![3, 4, 5, 6, 7]);
    assert_eq!(sum_samples(&w), 25);
}

#[test]
fn sum_of_samples() {
    assert_eq!(sum_samples(&vec![]), 0);
    assert_eq!(sum_samples(&vec![7]), 7);
    assert_eq!(sum_samples(&vec![u32::MAX; 5]), 5 * u32::MAX as u64);
}

#[test]
fn cores_in_cold_start_are_the_performance_cores() {
    for tier in TIERS {
        let m = UnifiedThermalManager::new(chip(tier));
        assert_eq!(m.get_cores_for_mode(), chip(tier).perf_cores);
        assert_eq!(m.get_thread_count(), 4);
    }
}

#[test]
fn cores_under_sustained_load_follow_the_tier() {
    assert_eq!(sustained(SocClass::Flagship).get_cores_for_mode(), vec![3, 4, 5, 6]);
    assert_eq!(sustained(SocClass::HighEnd).get_cores_for_mode(), vec![4, 5, 6, 7]);
    assert_eq!(sustained(SocClass::MidRange).get_cores_for_mode(), vec![0, 4, 5]);
    assert_eq!(sustained(SocClass::LowEnd).get_cores_for_mode(), vec![4]);
    assert_eq!(sustained(SocClass::Flagship).get_thread_count(), 4);
    assert_eq!(sustained(SocClass::MidRange).get_thread_count(), 3);
    assert_eq!(sustained(SocClass::LowEnd).get_thread_count(), 1);
}

#[test]
fn cores_while_cooling_are_the_first_efficiency_cores() {
    assert_eq!(cooling(SocClass::Flagship).get_cores_for_mode(), vec![0, 1, 2]);
    assert_eq!(cooling(SocClass::HighEnd).get_cores_for_mode(), vec![0, 1, 2, 3]);
    assert_eq!(cooling(SocClass::MidRange).get_cores_for_mode(), vec![4, 5, 6, 7]);
    assert_eq!(cooling(SocClass::LowEnd).get_cores_for_mode(), vec![0, 1]);
    assert_eq!(cooling(SocClass::LowEnd).get_thread_count(), 2);
}

#[test]
fn cores_while_cooling_are_at_most_four() {
    let topology = CpuTopology {
        prime_core: None,
        perf_cores: vec![6, 7],
        little_cores: vec![0, 1, 2, 3, 4, 5],
        soc_class: SocClass::MidRange,
    };
    let mut m = UnifiedThermalManager::new(topology);
    m.update_at(0, 6_000, 1_000);
    assert_eq!(m.get_cores_for_mode(), vec![6, 0, 1]);
    m.update_at(0, 11_000, 1_000);
    assert_eq!(m.get_current_mode(), ThermalMode::Efficiency);
    assert_eq!(m.get_cores_for_mode(), vec![0, 1, 2, 3]);
    assert_eq!(m.get_thread_count(), 4);
}

#[test]
fn cores_in_an_emergency_are_the_first_two_efficiency_cores() {
    for tier in TIERS {
        let mut m = cooling_and_throttled(tier);
        assert_eq!(m.update_at(0, 5_000, 1_000).mode, ThermalMode::Emergency);
        let little = chip(tier).little_cores;
        assert_eq!(m.get_cores_for_mode(), little[..2].to_vec());
        assert_eq!(m.get_thread_count(), 2);
    }
}

#[test]
fn thread_count_is_at_least_one_without_efficiency_cores() {
    for tier in TIERS {
        let topology = CpuTopology {
            prime_core: None,
            perf_cores: vec![0, 1, 2, 3],
            little_cores: vec![],
            soc_class: tier,
        };
        let mut m = UnifiedThermalManager::new(topology);
        assert!(m.get_thread_count() >= 1);
        m.update_at(0, 6_000, 2_000);
        assert!(m.get_thread_count() >= 1);
        for _ in 0..4 {
            m.update_at(0, 6_000, 2_000);
        }
        m.update_at(0, 13_000, 2_000);
        assert_eq!(m.get_current_mode(), ThermalMode::Efficiency);
        assert_eq!(m.get_cores_for_mode(), Vec::<usize>::new());
        assert_eq!(m.get_thread_count(), 1);
        for _ in 0..5 {
            m.update_at(0, 13_000, 1);
        }
        assert_eq!(m.get_current_mode(), ThermalMode::Emergency);
        assert_eq!(m.get_cores_for_mode(), Vec::<usize>::new());
        assert_eq!(m.get_thread_count(), 1);
    }
}

#[test]
fn thread_count_is_at_least_one_without_any_core() {
    for tier in TIERS {
        let topology = CpuTopology {
            prime_core: Some(0),
            perf_cores: vec![],
            little_cores: vec![],
            soc_class: tier,
        };
        let mut m = UnifiedThermalManager::new(topology);
        assert_eq!(m.get_cores_for_mode(), Vec::<usize>::new());
        assert_eq!(m.get_thread_count(), 1);
        m.update_at(0, 6_000, 1_000);
        assert_eq!(m.get_current_mode(), ThermalMode::Sustained);
        assert_eq!(m.get_cores_for_mode(), Vec::<usize>::new());
        assert_eq!(m.get_thread_count(), 1);
        m.update_at(0, 13_000, 1_000);
        assert_eq!(m.get_current_mode(), ThermalMode::Efficiency);
        assert_eq!(m.get_thread_count(), 1);
    }
}

#[test]
fn replay_gives_the_same_modes() {
    let ticks: Vec<(u64, u64, u32)> = vec![
        (0, 1_000, 2_000),
        (100, 6_000, 2_000),
        (200, 6_000, 2_000),
        (300, 6_000, 2_000),
        (400, 6_000, 2_000),
        (500, 6_000, 900),
        (600, 6_000, 900),
        (700, 6_000, 900),
        (800, 6_000, 900),
        (900, 6_000, 900),
        (1_000, 6_000, 900),
        (200_000, 6_000, 2_000),
        (200_100, 1_000, 2_000),
        (200_200, 20_000, 2_000),
        (400_000, 4_000, 2_000),
    ];
    for tier in TIERS {
        let mut first = UnifiedThermalManager::new(chip(tier));
        let mut second = UnifiedThermalManager::new(CpuTopology {
            prime_core: None,
            perf_cores: vec![9],
            little_cores: vec![],
            soc_class: tier,
        });
        let mut modes: Vec<ThermalMode> = Vec::new();
        for &(now, buffer, rtf) in &ticks {
            let a = first.update_at(now, buffer, rtf).mode;
            let b = second.update_at(now, buffer, rtf).mode;
            assert_eq!(a, b);
            modes.push(a);
        }
        assert!(modes.contains(&ThermalMode::Sustained));
        assert!(modes.contains(&ThermalMode::Efficiency));
    }
}

#[test]
fn replay_of_a_mid_range_run() {
    let mut m = UnifiedThermalManager::new(mid_range());
    let run: [(u64, u64, u32, ThermalMode); 8] = [
        (0, 1_000, 1_000, ThermalMode::ColdStart),
        (31_000, 1_000, 1_000, ThermalMode::Sustained),
        (32_000, 1_999, 1_000, ThermalMode::ColdStart),
        (33_000, 5_001, 1_000, ThermalMode::Sustained),
        (34_000, 10_001, 1_000, ThermalMode::Efficiency),
        (124_000, 9_999, 1_000, ThermalMode::Efficiency),
        (124_001, 9_999, 1_000, ThermalMode::Sustained),
        (124_002, 9_999, 1_000, ThermalMode::Sustained),
    ];
    for (now, buffer, rtf, mode) in run {
        assert_eq!(m.update_at(now, buffer, rtf).mode, mode, "at {}", now);
    }
}
