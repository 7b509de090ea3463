use vf_dst::generator::{GeneratorConfig, GeneratorError};
use vf_dst::perf::ProgressGuarantee;
use vf_dst::prompt::{extract_code_block, PromptBuilder};

#[test]
fn test_generator_config_presets() {
    let quick = GeneratorConfig::quick();
    assert_eq!(quick.max_correctness_attempts, 3);
    let thorough = GeneratorConfig::thorough();
    assert_eq!(thorough.max_correctness_attempts, 10);
}

#[test]
fn generator_config_defaults() {
    let d = GeneratorConfig::default();
    assert_eq!((d.max_correctness_attempts, d.max_perf_attempts), (5, 3));
    assert_eq!(d.target_progress_guarantee, ProgressGuarantee::LockFree);
    assert!(!d.verbose);
    assert_eq!(GeneratorConfig::thorough().target_progress_guarantee, ProgressGuarantee::WaitFree);
    assert_eq!(GeneratorError::SpecError("x".to_string()), GeneratorError::SpecError("x".to_string()));
}

#[test]
fn test_extract_code_block() {
    let response = r#"Here's the implementation:

```rust
fn main() {
    println!("Hello");
}
```

This code prints hello."#;
    let code = extract_code_block(response).unwrap();
    assert!(code.contains("fn main()"));
    assert!(code.contains("println!"));
}

#[test]
fn extract_code_block_exact_and_missing() {
    assert_eq!(extract_code_block("a ```rust  x = 1; ``` b").as_deref(), Some("x = 1;"));
    assert_eq!(extract_code_block("no code here"), None);
    assert_eq!(extract_code_block("```rust fn f() {}"), None);
    assert_eq!(extract_code_block("```rust\n\n  let y = 2;\n```").as_deref(), Some("let y = 2;"));
}

#[test]
fn test_system_prompt_is_minimal() {
    let system = PromptBuilder::system_prompt();
    assert!(!system.contains("epoch"));
    assert!(!system.contains("Acquire"));
    assert!(!system.contains("CAS"));
    assert!(system.contains("WaitFree"));
    assert!(system.contains("LockFree"));
}
