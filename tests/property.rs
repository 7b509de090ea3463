use std::collections::HashSet;
use vf_dst::counterexample::{Counterexample, StateSnapshot};
use vf_dst::property::{PropertyChecker, PropertyResult, PropertySummary};
use vf_dst::stack::{StackHistory, StackOpType, StackProperties, StackPropertyChecker};

struct TestStack {
    pushed: HashSet<u64>,
    popped: HashSet<u64>,
    contents: Vec<u64>,
    history: StackHistory,
}

impl TestStack {
    fn new() -> Self {
        Self {
            pushed: HashSet::new(),
            popped: HashSet::new(),
            contents: Vec::new(),
            history: StackHistory::new(),
        }
    }

    fn push(&mut self, val: u64) {
        self.pushed.insert(val);
        self.contents.push(val);
        self.history.record_push(0, val, self.history.operations.len() as u64 + 1);
    }

    fn pop(&mut self) -> Option<u64> {
        let val = self.contents.pop();
        if let Some(v) = val {
            self.popped.insert(v);
        }
        self.history.record_pop(0, val, self.history.operations.len() as u64 + 1);
        val
    }
}

impl StackProperties for TestStack {
    fn pushed_elements(&self) -> HashSet<u64> {
        self.pushed.clone()
    }

    fn popped_elements(&self) -> HashSet<u64> {
        self.popped.clone()
    }

    fn current_contents(&self) -> Vec<u64> {
        self.contents.clone()
    }

    fn history(&self) -> &StackHistory {
        &self.history
    }
}

#[test]
fn test_property_result_pass() {
    let result = PropertyResult::pass("NoLostElements", "treiber_stack.tla", 45);
    assert!(result.holds);
    assert!(result.violation.is_none());
    assert!(result.counterexample.is_none());
}

#[test]
fn test_property_result_fail() {
    let result = PropertyResult::fail(
        "NoLostElements",
        "treiber_stack.tla",
        45,
        "Element 42 was lost".to_string(),
        None,
    );
    assert!(!result.holds);
    assert!(result.violation.is_some());
}

#[test]
fn test_format_status() {
    let pass = PropertyResult::pass("Test", "test.tla", 10);
    assert!(pass.format_status().contains("[PASS]"));
    let fail = PropertyResult::fail("Test", "test.tla", 10, "error".to_string(), None);
    assert!(fail.format_status().contains("[FAIL]"));
}

#[test]
fn format_status_exact_text() {
    let pass = PropertyResult::pass("Test", "test.tla", 10);
    assert_eq!(pass.format_status(), "[PASS] Test (test.tla:10)");
    let fail = PropertyResult::fail("Test", "test.tla", 10, "error".to_string(), None);
    assert_eq!(fail.format_status(), "[FAIL] Test (test.tla:10): error");
}

#[test]
fn test_correct_stack_passes_all() {
    let mut stack = TestStack::new();
    stack.push(1);
    stack.push(2);
    stack.push(3);
    stack.pop();
    stack.pop();
    let checker = StackPropertyChecker::new(&stack);
    assert!(checker.all_hold());
}

#[test]
fn test_lost_element_detected() {
    let stack = TestStack {
        pushed: [1, 2, 3].into_iter().collect(),
        popped: [1].into_iter().collect(),
        contents: vec![2],
        history: StackHistory::new(),
    };
    let checker = StackPropertyChecker::new(&stack);
    let results = checker.check_all();
    let no_lost = results.iter().find(|r| r.name == "NoLostElements").unwrap();
    assert!(!no_lost.holds);
    assert!(no_lost.violation.as_ref().unwrap().contains("3"));
}

#[test]
fn test_duplicate_detected() {
    let stack = TestStack {
        pushed: [1, 2].into_iter().collect(),
        popped: HashSet::new(),
        contents: vec![1, 1, 2],
        history: StackHistory::new(),
    };
    let checker = StackPropertyChecker::new(&stack);
    let results = checker.check_all();
    let no_dup = results.iter().find(|r| r.name == "NoDuplicates").unwrap();
    assert!(!no_dup.holds);
}

#[test]
fn stack_scenario_push_three_pop_two() {
    let mut stack = TestStack::new();
    stack.push(1);
    stack.push(2);
    stack.push(3);
    assert_eq!(stack.pop(), Some(3));
    assert_eq!(stack.pop(), Some(2));
    let checker = StackPropertyChecker::new(&stack);
    let results = checker.check_all();
    assert!(results.iter().find(|r| r.name == "NoLostElements").unwrap().holds);
    assert!(results.iter().find(|r| r.name == "NoDuplicates").unwrap().holds);

    let broken = TestStack {
        pushed: [1, 2, 3].into_iter().collect(),
        popped: [3].into_iter().collect(),
        contents: vec![1],
        history: StackHistory::new(),
    };
    let results = StackPropertyChecker::new(&broken).with_seed(77).check_all();
    let no_lost = results.iter().find(|r| r.name == "NoLostElements").unwrap();
    assert!(!no_lost.holds);
    assert_eq!(
        no_lost.violation.as_deref(),
        Some("Element 2 was pushed but is neither in stack nor popped")
    );
    let ce = no_lost.counterexample.as_ref().unwrap();
    assert_eq!(ce.dst_seed, Some(77));
    assert_eq!(ce.states.len(), 1);
    assert_eq!(ce.states[0].description, "Element 2 lost");
}

#[test]
fn check_all_gives_one_result_per_invariant() {
    let stack = TestStack {
        pushed: [5].into_iter().collect(),
        popped: HashSet::new(),
        contents: vec![],
        history: StackHistory::new(),
    };
    let checker = StackPropertyChecker::new(&stack);
    let names: Vec<&str> = checker.check_all().iter().map(|r| r.name).collect();
    assert_eq!(names, vec!["NoLostElements", "NoDuplicates", "LIFO_Order", "Linearizability", "ABA_Safety"]);
    let summary = checker.summary();
    assert_eq!((summary.passed, summary.failed, summary.total), (4, 1, 5));
    let first = checker.verify_all().unwrap_err();
    assert_eq!(first.name, "NoLostElements");
    assert!(!checker.all_hold());
}

#[test]
fn lifo_violation_names_both_values() {
    let mut history = StackHistory::new();
    history.record_push(0, 1, 1);
    history.record_push(1, 2, 2);
    history.record_pop(0, Some(1), 3);
    history.record_pop(0, None, 4);
    assert_eq!(history.operations[3].op_type, StackOpType::PopEmpty);
    let stack = TestStack {
        pushed: [1, 2].into_iter().collect(),
        popped: [1].into_iter().collect(),
        contents: vec![2],
        history,
    };
    let checker = StackPropertyChecker::new(&stack);
    let lifo = checker.check_lifo_order();
    assert!(!lifo.holds);
    assert_eq!(lifo.violation.as_deref(), Some("Pop returned 1 but LIFO expected 2"));
    assert_eq!(lifo.tla_line, 72);
}

#[test]
fn duplicate_message_names_the_repeated_value() {
    let stack = TestStack {
        pushed: [4, 9].into_iter().collect(),
        popped: HashSet::new(),
        contents: vec![9, 4, 9, 4],
        history: StackHistory::default(),
    };
    let r = StackPropertyChecker::new(&stack).check_no_duplicates();
    assert_eq!(r.violation.as_deref(), Some("Element 9 appears multiple times in stack"));
}

#[test]
fn summary_report_includes_the_first_counterexample() {
    let mut ce = Counterexample::with_seed(12345);
    ce.add_state(StateSnapshot {
        step: 1,
        description: "push 1".to_string(),
        variables: vec![("head".to_string(), "1".to_string())],
    });
    let results = vec![
        PropertyResult::pass("A", "s.tla", 1),
        PropertyResult::fail("B", "s.tla", 2, "broken".to_string(), Some(ce)),
    ];
    let summary = PropertySummary { passed: 1, failed: 1, total: 2, results };
    assert_eq!(
        summary.format_report(),
        "Property Check Summary: 1/2 passed\n[PASS] A (s.tla:1)\n[FAIL] B (s.tla:2): broken\n\nCounterexample:\nSeed: DST_SEED=12345\nStep 1: push 1\n  head = 1\n"
    );
}

#[test]
fn failure_without_counterexample_is_valid() {
    let results = vec![PropertyResult::fail("B", "s.tla", 2, "broken".to_string(), None)];
    let summary = PropertySummary { passed: 0, failed: 1, total: 1, results };
    assert_eq!(summary.format_report(), "Property Check Summary: 0/1 passed\n[FAIL] B (s.tla:2): broken\n");
    let none = Counterexample::new();
    assert_eq!(none.render_diagram(), "");
}
