use vf_dst::cascade::{CascadeConfig, EvaluatorCascade, EvaluatorLevel};

#[test]
fn test_levels_up_to() {
    let levels = EvaluatorLevel::Loom.levels_up_to();
    assert_eq!(levels.len(), 3);
    assert_eq!(levels[0], EvaluatorLevel::Rustc);
    assert_eq!(levels[1], EvaluatorLevel::Miri);
    assert_eq!(levels[2], EvaluatorLevel::Loom);
}

#[test]
fn test_config_presets() {
    let fast = CascadeConfig::fast();
    assert_eq!(fast.max_level, EvaluatorLevel::Miri);
    let thorough = CascadeConfig::thorough();
    assert_eq!(thorough.max_level, EvaluatorLevel::Stateright);
    let max = CascadeConfig::maximum();
    assert_eq!(max.max_level, EvaluatorLevel::Kani);
}

#[test]
fn cascade_stops_after_a_failure_when_fail_fast() {
    let cascade = EvaluatorCascade::new(CascadeConfig::fast());
    assert_eq!(cascade.next_level(0, true), Some(EvaluatorLevel::Rustc));
    assert_eq!(cascade.next_level(1, true), Some(EvaluatorLevel::Miri));
    assert_eq!(cascade.next_level(2, true), None);
    assert_eq!(cascade.next_level(1, false), None);
    let mut config = CascadeConfig::maximum();
    config.fail_fast = false;
    let patient = EvaluatorCascade::new(config);
    assert_eq!(patient.next_level(3, false), Some(EvaluatorLevel::Dst));
    assert_eq!(patient.next_level(6, true), None);
}

#[test]
fn default_cascade_config_values() {
    let cascade = EvaluatorCascade::with_defaults();
    let c = cascade.config();
    assert_eq!(c.max_level, EvaluatorLevel::Dst);
    assert!(c.fail_fast);
    assert_eq!(c.timeout.as_secs(), 300);
    assert_eq!((c.loom_preemption_bound, c.stateright_depth_max, c.kani_unwind), (3, 100, 10));
    assert_eq!(c.dst_iterations, 1000);
    assert_eq!(CascadeConfig::maximum().timeout.as_secs(), 1800);
    assert_eq!(EvaluatorLevel::Dst.name(), "DST");
    assert_eq!(EvaluatorLevel::Kani.levels_up_to().len(), 6);
}
