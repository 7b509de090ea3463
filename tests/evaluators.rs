use vf_dst::evaluators::{extract_dst_error, extract_loom_error, extract_miri_error, extract_rustc_error};

#[test]
fn test_extract_error() {
    let stderr = r#"
   Compiling foo v0.1.0
error[E0382]: borrow of moved value: `x`
  --> src/lib.rs:10:5
   |
10 |     println!("{}", x);
   |                    ^ value borrowed here after move
"#;
    let error = extract_rustc_error(stderr);
    assert!(error.contains("E0382"));
}

#[test]
fn test_extract_miri_error() {
    let stderr = r#"
error: Undefined Behavior: trying to retag from <1234> for Unique permission at alloc1234[0x0],
       but that tag does not exist in the borrow stack for this location
"#;
    let error = extract_miri_error(stderr);
    assert!(error.contains("Undefined Behavior"));
}

#[test]
fn test_extract_loom_error() {
    let stdout = r#"
running 1 test
thread 'test_concurrent_push_pop' panicked at 'assertion failed: pushed.is_subset(&contents)',
    src/treiber_stack.rs:150:9
test test_concurrent_push_pop ... FAILED
"#;
    let error = extract_loom_error("", stdout);
    assert!(error.contains("panicked") || error.contains("assertion failed"));
}

#[test]
fn test_extract_dst_error() {
    let stdout = r#"
running 1 test
DST_SEED=12345 (randomly generated)
thread 'test_stack_under_faults' panicked at 'assertion failed: checker.all_hold()',
    src/treiber_stack.rs:200:9
test test_stack_under_faults ... FAILED
"#;
    let (error, ce) = extract_dst_error("", stdout);
    assert!(error.contains("panicked") || error.contains("assertion failed"));
    assert!(ce.is_some());
    assert_eq!(ce.unwrap().dst_seed, Some(12345));
}

#[test]
fn extractors_fall_back_in_order() {
    assert_eq!(extract_rustc_error(""), "unknown error");
    assert_eq!(extract_rustc_error("\n\n  warning: x\nerror: bad\n"), "error: bad");
    assert_eq!(extract_rustc_error("\nfirst\nsecond"), "first");
    assert_eq!(extract_miri_error(""), "undefined behavior detected");
    assert_eq!(extract_miri_error("note\nerror: other\n"), "error: other");
    assert_eq!(extract_loom_error("", "test a ... FAILED\n"), "test a ... FAILED");
    assert_eq!(extract_loom_error("", "all good"), "loom test failed");
    assert_eq!(extract_loom_error("x panicked at y", "z FAILED"), "x panicked at y");
}

#[test]
fn dst_error_takes_the_last_lines_and_skips_bad_seeds() {
    let out = "DST_SEED=7\nassertion failed: a\nDST_SEED=+42 again\npanicked at b\nDST_SEED=oops\n";
    let (error, ce) = extract_dst_error("", out);
    assert_eq!(error, "panicked at b");
    assert_eq!(ce.unwrap().dst_seed, Some(42));
    let (error, ce) = extract_dst_error("DST_SEED=0", "");
    assert_eq!(error, "DST test failed");
    assert!(ce.is_none());
    let (_, ce) = extract_dst_error("DST_SEED=18446744073709551616", "");
    assert!(ce.is_none());
    let (_, ce) = extract_dst_error("DST_SEED=   18446744073709551615 x", "");
    assert_eq!(ce.unwrap().dst_seed, Some(u64::MAX));
}
