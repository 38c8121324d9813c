use helper_binaries::binaries_state::BinariesState;

#[test]
fn first_caller_takes_the_guard() {
    let mut state = BinariesState::new();
    assert!(state.try_start());
}

#[test]
fn overlapping_caller_is_refused() {
    let mut state = BinariesState::default();
    assert!(state.try_start());
    assert!(!state.try_start());
    assert!(!state.try_start());
}

#[test]
fn guard_is_free_again_after_finish() {
    let mut state = BinariesState::new();
    assert!(state.try_start());
    state.finish();
    assert!(state.try_start());
}

#[test]
fn finish_on_a_free_guard_leaves_it_free() {
    let mut state = BinariesState::new();
    state.finish();
    assert!(state.try_start());
}
