use cs2_killtimer::overlay::{client_rect, exe_basename, is_game_window, Frame, OverlayState};

#[test]
fn basename_of_paths() {
    assert_eq!(exe_basename(r"C:\Games\CS2\game\bin\win64\CS2.exe"), "cs2.exe");
    assert_eq!(exe_basename("C:/x/y/cs2.exe"), "cs2.exe");
    assert_eq!(exe_basename("cs2.exe"), "cs2.exe");
    assert_eq!(exe_basename(r"C:\dir\"), "");
    assert_eq!(exe_basename(""), "");
}

#[test]
fn game_window_detection() {
    assert!(is_game_window("CS2.EXE", ""));
    assert!(is_game_window("explorer.exe", "  Counter-Strike 2"));
    assert!(!is_game_window("explorer.exe", "Counter-Strike"));
    assert!(!is_game_window("", ""));
}

#[test]
fn client_rect_rejects_empty() {
    assert_eq!(client_rect(0, 0, 1920, 1080, 100, 50), Some((100, 50, 1920, 1080)));
    assert_eq!(client_rect(10, 0, 10, 1080, 0, 0), None);
    assert_eq!(client_rect(0, 5, 100, 4, 0, 0), None);
}

#[test]
fn overlay_ticks() {
    let mut st = OverlayState::new();
    let rect = (0, 0, 1920, 1080);
    match st.tick((true, 3, (1, 2, 3), true), Some(rect), 1_000) {
        Frame::Draw { text, rgb, rect: r, fade_elapsed_ms } => {
            assert_eq!(text, "3");
            assert_eq!(rgb, (1, 2, 3));
            assert_eq!(r, rect);
            assert_eq!(fade_elapsed_ms, Some(0));
        }
        Frame::Hide => panic!("expected a draw"),
    }
    // same text later: the fade keeps running from its start
    match st.tick((true, 3, (1, 2, 3), true), Some(rect), 1_100) {
        Frame::Draw { fade_elapsed_ms, .. } => assert_eq!(fade_elapsed_ms, Some(100)),
        Frame::Hide => panic!("expected a draw"),
    }
    // new text restarts the fade
    match st.tick((true, 4, (1, 2, 3), true), Some(rect), 2_000) {
        Frame::Draw { text, fade_elapsed_ms, .. } => {
            assert_eq!(text, "4");
            assert_eq!(fade_elapsed_ms, Some(0));
        }
        Frame::Hide => panic!("expected a draw"),
    }
    assert!(matches!(st.tick((false, 4, (1, 2, 3), true), Some(rect), 2_100), Frame::Hide));
    assert!(st.last_text.is_empty());
    assert!(matches!(st.tick((true, 4, (1, 2, 3), false), Some(rect), 2_200), Frame::Hide));
    assert!(matches!(st.tick((true, 4, (1, 2, 3), true), None, 2_300), Frame::Hide));
}
