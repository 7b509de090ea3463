use vf_dst::naming::NamingChecker;
use vf_dst::quality::TigerStyleChecker;
use vf_dst::safety::{extract_function_name, SafetyChecker};

#[test]
fn test_check_big_endian_naming() {
    let checker = NamingChecker::new();
    let bad_code = r#"
const MAX_SIZE: u64 = 1000;
fn get_value() -> u64 { 0 }
"#;
    let violations = checker.check_big_endian_naming(bad_code);
    assert!(!violations.is_empty());
    let good_code = r#"
const SIZE_MAX: u64 = 1000;
fn value() -> u64 { 0 }
"#;
    let violations = checker.check_big_endian_naming(good_code);
    assert!(violations.is_empty());
}

#[test]
fn test_check_snake_case() {
    let checker = NamingChecker::new();
    let bad_code = r#"
let cnt = 0;
let buf = Vec::new();
"#;
    let violations = checker.check_snake_case(bad_code);
    assert!(!violations.is_empty());
}

#[test]
fn test_check_qualifiers() {
    let checker = NamingChecker::new();
    let bad_code = r#"
let byte_count = 100;
let ms_delay = 50;
"#;
    let violations = checker.check_qualifiers(bad_code);
    assert!(!violations.is_empty());
    let good_code = r#"
let count_bytes = 100;
let delay_ms = 50;
"#;
    let violations = checker.check_qualifiers(good_code);
    assert!(violations.is_empty());
}

#[test]
fn test_extract_function_name() {
    assert_eq!(extract_function_name("pub fn foo("), "foo");
    assert_eq!(extract_function_name("fn bar()"), "bar");
    assert_eq!(extract_function_name("pub fn baz<T>(x: T)"), "baz<T>");
}

#[test]
fn test_check_assertions() {
    let checker = SafetyChecker::new();
    let good_code = r#"
fn process(x: u64) -> u64 {
    debug_assert!(x > 0);
    debug_assert!(x < 1000);
    x * 2
}
"#;
    let violations = checker.check_assertions(good_code);
    assert!(violations.is_empty());
    let bad_code = r#"
fn process(x: u64) -> u64 {
    x * 2
}
"#;
    let violations = checker.check_assertions(bad_code);
    assert!(!violations.is_empty());
}

#[test]
fn test_check_explicit_limits() {
    let checker = SafetyChecker::new();
    let code_without_limits = r#"
struct Foo {
    items: Vec<u64>,
    size: u64,
}

impl Foo {
    fn new() -> Self {
        Self {
            items: Vec::new(),
            size: 0,
        }
    }
}
"#;
    let violations = checker.check_explicit_limits(code_without_limits);
    assert!(!violations.is_empty());
}

#[test]
fn test_check_usize_usage() {
    let checker = SafetyChecker::new();
    let code = r#"
struct Stats {
    total: usize,  // Should be u64
    len: usize,    // OK - genuinely platform-specific
}
"#;
    let violations = checker.check_usize_usage(code);
    assert_eq!(violations.len(), 1);
}

#[test]
fn naming_messages_and_lines() {
    let checker = NamingChecker::new();
    let v = checker.check_big_endian_naming("// fn max_x()\nfn max_len() {}\nlet num_items = 3;");
    assert_eq!(v.len(), 2);
    assert_eq!(v[0].format(), "[WARN]:2 BigEndianNaming: Use _max suffix instead (e.g., count_max)");
    assert_eq!(v[1].line, Some(3));
    let v = checker.check_snake_case("let cnt = 1; let ctx}\nlet idx = 0;");
    assert_eq!(v.len(), 2);
    assert_eq!(v[0].message, "Consider using 'count' instead of 'cnt'");
    assert_eq!(v[1].message, "Consider using 'index' instead of 'idx'");
    let v = checker.check_qualifiers("let sec_wait = 1;");
    assert_eq!(v[0].message, "Consider suffix '_seconds' instead of prefix");
}

#[test]
fn assertion_scan_details() {
    let checker = SafetyChecker::new();
    let code = "fn new() {\n}\nfn helper() {\n    assert!(true);\n}\npub fn open(\n";
    let v = checker.check_assertions(code);
    assert_eq!(v.len(), 1);
    assert_eq!(v[0].message, "Function 'helper' has 1 assertion(s), recommend 2+");
    assert_eq!(v[0].line, Some(3));
    let limits = checker.check_explicit_limits("loop {\nlet count: u64;\n");
    assert_eq!(limits.len(), 2);
    assert_eq!(limits[1].line, None);
}

#[test]
fn full_check_combines_rules() {
    let checker = TigerStyleChecker::new();
    let result = checker.check("fn work(x: usize) {\n    let tmp = Vec::new();\n}\n");
    assert!(result.passes);
    let rules: Vec<&str> = result.violations.iter().map(|v| v.rule).collect();
    assert_eq!(rules, vec!["Assertions", "ExplicitLimits", "UsizeUsage", "NoAbbreviations"]);
    assert!(TigerStyleChecker::default().check("").violations.is_empty());
}
