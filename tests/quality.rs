use vf_dst::quality::{Severity, TigerStyleResult, Violation};

#[test]
fn test_violation_format() {
    let v = Violation::error("ExplicitLimits", "Missing _MAX constant").at_line(42);
    let formatted = v.format();
    assert!(formatted.contains("ERROR"));
    assert!(formatted.contains(":42"));
    assert!(formatted.contains("ExplicitLimits"));
}

#[test]
fn test_result_passes() {
    let result = TigerStyleResult::from_violations(vec![Violation::warning("Test", "test warning")]);
    assert!(result.passes);
    let result = TigerStyleResult::from_violations(vec![Violation::error("Test", "test error")]);
    assert!(!result.passes);
}

#[test]
fn report_counts_and_verdict() {
    let result = TigerStyleResult::from_violations(vec![
        Violation::error("A", "bad").at_line(3),
        Violation::warning("B", "meh"),
        Violation::warning("C", "hmm"),
    ]);
    assert_eq!(result.errors_count(), 1);
    assert_eq!(result.warnings_count(), 2);
    assert_eq!(
        result.format_report(),
        "TigerStyle Check Results\n========================\n\n[ERROR]:3 A: bad\n[WARN] B: meh\n[WARN] C: hmm\n\nSummary: 1 errors, 2 warnings\nResult: FAIL\n"
    );
    let empty = TigerStyleResult::from_violations(vec![]);
    assert!(empty.passes);
    assert_eq!(empty.violations[..].len(), 0);
    assert_eq!(Violation::warning("W", "x").severity, Severity::Warning);
}
