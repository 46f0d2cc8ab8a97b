use cs2_killtimer::settings::OVERLAY_HIDDEN_RGB;
use cs2_killtimer::state::SharedState;

#[test]
fn initial_state_is_hidden() {
    let s = SharedState::new();
    assert_eq!(s.snapshot(), (false, 1, OVERLAY_HIDDEN_RGB, false));
    let d = SharedState::default();
    assert_eq!(d.snapshot(), (false, 1, OVERLAY_HIDDEN_RGB, false));
}

#[test]
fn snapshot_gives_back_last_set() {
    let mut s = SharedState::new();
    s.set(true, 13, (1, 2, 3), true);
    assert_eq!(s.snapshot(), (true, 13, (1, 2, 3), true));
    s.set(false, 0, (4, 5, 6), false);
    assert_eq!(s.snapshot(), (false, 1, (4, 5, 6), false));
}
