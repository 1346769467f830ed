use ad_bench::optim::OptimizerState;

#[test]
fn fresh_state_is_empty() {
    let s = OptimizerState::new();
    assert_eq!(s.len(), 0);
    assert!(!s.contains(7));
    assert!(s.holds_exactly(&vec![]));
}

#[test]
fn first_step_covers_every_parameter_and_no_other() {
    let params = vec![11, 22, 33, 44];
    let mut s = OptimizerState::new();
    s.record_step(&vec![33, 11, 44, 22]);
    assert!(s.holds_exactly(&params));
    assert!(!s.holds_exactly(&vec![11, 22, 33]));
    assert!(!s.holds_exactly(&vec![11, 22, 33, 44, 55]));
    assert_eq!(s.len(), 4);
    assert_eq!(s.keys(), vec![33, 11, 44, 22]);
}

#[test]
fn repeated_steps_do_not_add_entries() {
    let mut s = OptimizerState::new();
    s.record_step(&vec![1, 2, 3, 4]);
    s.record_step(&vec![1, 2, 3, 4]);
    s.record_step(&vec![4, 3]);
    assert_eq!(s.keys(), vec![1, 2, 3, 4]);
}

#[test]
fn duplicate_gradient_keys_are_held_once() {
    let mut s = OptimizerState::new();
    s.record_step(&vec![5, 5, 6, 5]);
    assert_eq!(s.keys(), vec![5, 6]);
}

#[test]
fn entries_only_grow() {
    let mut s = OptimizerState::new();
    s.record_step(&vec![1, 2]);
    s.record_step(&vec![3]);
    s.record_step(&vec![]);
    assert!(s.contains(1) && s.contains(2) && s.contains(3));
    assert_eq!(s.keys(), vec![1, 2, 3]);
}
