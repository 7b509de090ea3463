use stateright::{Checker, Model};
use vf_dst::treiber::{Node, StackModel, StackState};

#[test]
fn treiber_stack_test_initial_state() {
    let state = StackState::new(2);
    assert!(state.head.is_none());
    assert!(state.nodes.is_empty());
    assert!(state.invariants_hold());
}

#[test]
fn contents_follow_next_pointers() {
    let mut state = StackState::new(1);
    state.nodes.insert(0, Node { value: 10, next: None });
    state.nodes.insert(1, Node { value: 20, next: Some(0) });
    state.head = Some(1);
    state.pushed.insert(10);
    state.pushed.insert(20);
    assert_eq!(state.contents(), vec![20, 10]);
    assert!(state.invariants_hold());
    state.pushed.insert(30);
    assert!(!state.no_lost_elements());
    state.popped.insert(30);
    assert!(state.no_lost_elements());
}

#[test]
fn cyclic_state_ends_and_reports_duplicates() {
    let mut state = StackState::new(1);
    state.nodes.insert(0, Node { value: 1, next: Some(1) });
    state.nodes.insert(1, Node { value: 2, next: Some(0) });
    state.head = Some(0);
    assert_eq!(state.contents(), vec![1, 2]);
    state.nodes.insert(1, Node { value: 1, next: None });
    assert!(!state.no_duplicates());
    let model = StackModel::new(2, vec![1, 2]);
    assert_eq!(model.operations_per_thread_max, 4);
}

struct Explorer(StackModel);

impl Model for Explorer {
    type State = StackState;
    type Action = vf_dst::treiber::StackAction;

    fn init_states(&self) -> Vec<Self::State> {
        self.0.init_states()
    }

    fn actions(&self, state: &Self::State, actions: &mut Vec<Self::Action>) {
        actions.extend(self.0.actions(state));
    }

    fn next_state(&self, state: &Self::State, action: Self::Action) -> Option<Self::State> {
        self.0.next_state(state, action)
    }

    fn properties(&self) -> Vec<stateright::Property<Self>> {
        vec![
            stateright::Property::always("NoLostElements", |_: &Self, s: &StackState| s.no_lost_elements()),
            stateright::Property::always("NoDuplicates", |_: &Self, s: &StackState| s.no_duplicates()),
        ]
    }
}

#[test]
fn test_model_checking_small() {
    let model = Explorer(StackModel::new(2, vec![1, 2]));
    model.checker().threads(1).spawn_bfs().join().assert_properties();
}

#[test]
fn actions_of_the_initial_state() {
    let model = StackModel::new(2, vec![1, 2]);
    let state = model.init_states().remove(0);
    let actions = model.actions(&state);
    assert_eq!(actions.len(), 4);
    let next = model.next_state(&state, actions[0]).unwrap();
    assert_eq!(next.node_id_next, 1);
    let again = model.actions(&next);
    assert!(again.iter().all(|a| !matches!(a, vf_dst::treiber::StackAction::PushAlloc { value: 1, .. })));
}
