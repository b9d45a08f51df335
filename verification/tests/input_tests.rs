use ow_replay_renderer::input::{click_coordinates, ctrl, key_events, Key, Target};

#[test]
fn plain_key_presses_and_releases() {
    let events = key_events(&Key::Space);
    assert_eq!(events.len(), 2);
    assert_eq!(events[0].code, 0x20);
    assert!(!events[0].release);
    assert_eq!(events[1].code, 0x20);
    assert!(events[1].release);
}

#[test]
fn control_chord_wraps_inner_key() {
    let events = key_events(&ctrl(Key::P));
    assert_eq!(events.len(), 4);
    assert_eq!(events[0].code, 0xA2);
    assert!(!events[0].release);
    assert_eq!(events[1].code, 0x50);
    assert!(!events[1].release);
    assert_eq!(events[2].code, 0x50);
    assert!(events[2].release);
    assert_eq!(events[3].code, 0xA2);
    assert!(events[3].release);
}

#[test]
fn function_keys_map_to_consecutive_codes() {
    assert_eq!(key_events(&Key::F1)[0].code, 0x70);
    assert_eq!(key_events(&Key::F12)[0].code, 0x7B);
}

#[test]
fn duplicate_preserves_chords() {
    let k = ctrl(Key::Left);
    assert_eq!(k.duplicate(), k);
    assert_eq!(Key::F7.duplicate(), Key::F7);
}

#[test]
fn click_coordinates_scale_to_normalized_space() {
    assert_eq!(click_coordinates(380, 62), (380 * 65535 / 1920, 62 * 65535 / 1080));
    assert_eq!(click_coordinates(0, 0), (0, 0));
    assert_eq!(click_coordinates(1920, 1080), (65535, 65535));
}

#[test]
fn target_matches_exact_title_only() {
    let t = Target::Overwatch;
    assert_eq!(t.pattern(), "Overwatch");
    assert!(t.matches_title("Overwatch"));
    assert!(!t.matches_title("Overwatch League"));
    assert!(!t.matches_title(""));
}
