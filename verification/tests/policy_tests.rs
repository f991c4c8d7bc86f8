use thermal_affinity::{CoreSelection, SocClass, ThermalConfig};

const TIERS: [SocClass; 4] =
    [SocClass::LowEnd, SocClass::MidRange, SocClass::HighEnd, SocClass::Flagship];

#[test]
fn flagship_policy() {
    let c = ThermalConfig::for_soc_class(SocClass::Flagship);
    assert_eq!(c.buffer_low_threshold, 3_000);
    assert_eq!(c.buffer_high_threshold, 12_000);
    assert_eq!(c.max_high_power_duration, 180_000);
    assert_eq!(c.cooldown_duration, 45_000);
    assert!(!c.use_prime_core);
    assert_eq!(c.sustained_mode_cores, CoreSelection::AllPerf);
}

#[test]
fn high_end_policy() {
    let c = ThermalConfig::for_soc_class(SocClass::HighEnd);
    assert_eq!(c.buffer_low_threshold, 2_500);
    assert_eq!(c.buffer_high_threshold, 10_000);
    assert_eq!(c.max_high_power_duration, 120_000);
    assert_eq!(c.cooldown_duration, 60_000);
    assert!(!c.use_prime_core);
    assert_eq!(c.sustained_mode_cores, CoreSelection::AllPerf);
}

#[test]
fn mid_range_policy() {
    let c = ThermalConfig::for_soc_class(SocClass::MidRange);
    assert_eq!(c.buffer_low_threshold, 2_000);
    assert_eq!(c.buffer_high_threshold, 10_000);
    assert_eq!(c.max_high_power_duration, 90_000);
    assert_eq!(c.cooldown_duration, 90_000);
    assert!(!c.use_prime_core);
    assert_eq!(c.sustained_mode_cores, CoreSelection::HybridPerfLittle);
}

#[test]
fn low_end_policy() {
    let c = ThermalConfig::for_soc_class(SocClass::LowEnd);
    assert_eq!(c.buffer_low_threshold, 1_500);
    assert_eq!(c.buffer_high_threshold, 8_000);
    assert_eq!(c.max_high_power_duration, 60_000);
    assert_eq!(c.cooldown_duration, 120_000);
    assert!(!c.use_prime_core);
    assert_eq!(c.sustained_mode_cores, CoreSelection::SinglePerf);
}

#[test]
fn policy_tightens_from_flagship_to_low_end() {
    for pair in TIERS.windows(2) {
        let weaker = ThermalConfig::for_soc_class(pair[0]);
        let stronger = ThermalConfig::for_soc_class(pair[1]);
        assert!(pair[0].rank() < pair[1].rank());
        assert!(weaker.max_high_power_duration <= stronger.max_high_power_duration);
        assert!(weaker.cooldown_duration >= stronger.cooldown_duration);
        assert!(weaker.buffer_low_threshold <= stronger.buffer_low_threshold);
        assert!(weaker.buffer_high_threshold <= stronger.buffer_high_threshold);
    }
}

#[test]
fn low_threshold_lies_below_high_threshold() {
    for tier in TIERS {
        let c = ThermalConfig::for_soc_class(tier);
        assert!(c.buffer_low_threshold < c.buffer_high_threshold);
    }
}
