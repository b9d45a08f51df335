use ow_replay_renderer::input::Key;
use ow_replay_renderer::score::Score;
use ow_replay_renderer::side::{resolve_side, Side};

fn low() -> Score {
    // value 0.1
    Score { cross: 1, denom: 100 }
}

fn high() -> Score {
    // value 0.99
    Score { cross: 99, denom: 10000 }
}

#[test]
fn side_with_single_high_key_wins_red() {
    let blue = vec![low(), low(), low(), low(), low(), low()];
    let red = vec![low(), low(), low(), high(), low(), low()];
    assert_eq!(resolve_side(&blue, &red), Side::Red);
}

#[test]
fn side_with_single_high_key_wins_blue() {
    let blue = vec![low(), high(), low(), low(), low(), low()];
    let red = vec![low(), low(), low(), low(), low(), low()];
    assert_eq!(resolve_side(&blue, &red), Side::Blue);
}

#[test]
fn equal_sides_resolve_to_blue_first() {
    let blue = vec![low(), low(), low(), low(), low(), low()];
    let red = vec![low(), low(), low(), low(), low(), low()];
    assert_eq!(resolve_side(&blue, &red), Side::Blue);
}

#[test]
fn blue_maps_to_first_six_focus_keys() {
    let keys = Side::Blue.focus_keys();
    assert_eq!(
        keys,
        vec![Key::F1, Key::F2, Key::F3, Key::F4, Key::F5, Key::F6]
    );
}

#[test]
fn red_maps_to_last_six_focus_keys() {
    let keys = Side::Red.focus_keys();
    assert_eq!(
        keys,
        vec![Key::F7, Key::F8, Key::F9, Key::F10, Key::F11, Key::F12]
    );
}
