use ow_replay_renderer::frame::{Rect, ReplaysMenu, InReplay, Screenshot};
use ow_replay_renderer::predicates::{
    get_game_type, get_replay, is_replay, duration, GameType,
};
use ow_replay_renderer::ocr::get_chars;

fn solid_frame<C: ow_replay_renderer::frame::OWContext>(r: u8, g: u8, b: u8) -> Screenshot<C> {
    let mut data = Vec::with_capacity(1920 * 1080 * 3);
    for _ in 0..1920 * 1080 {
        data.push(r);
        data.push(g);
        data.push(b);
    }
    Screenshot::from_rgb_bytes(data).expect("solid frame")
}

#[test]
fn arcade_swatch_classifies_as_arcade() {
    let frame: Screenshot<ReplaysMenu> = solid_frame(100, 175, 100);
    let rect = Rect { x: 70, y: 428, w: 250, h: 40 };
    assert_eq!(get_game_type(&frame, rect), GameType::Arcade);
    assert_eq!(GameType::Arcade.label(), "Arcade");
}

#[test]
fn distant_swatch_classifies_as_unknown() {
    // white is over mean distance 100 from every palette entry
    let frame: Screenshot<ReplaysMenu> = solid_frame(255, 255, 255);
    let rect = Rect { x: 70, y: 428, w: 250, h: 40 };
    assert_eq!(get_game_type(&frame, rect), GameType::Unknown);
    assert_eq!(GameType::Unknown.label(), "Unknown");
}

#[test]
fn custom_game_swatch_classifies_as_custom() {
    let frame: Screenshot<ReplaysMenu> = solid_frame(120, 120, 120);
    let rect = Rect { x: 0, y: 0, w: 250, h: 40 };
    assert_eq!(get_game_type(&frame, rect), GameType::CustomGame);
    assert_eq!(GameType::CustomGame.label(), "Custom Game");
}

#[test]
fn quick_play_swatch_classifies_as_quick_play() {
    let frame: Screenshot<ReplaysMenu> = solid_frame(70, 140, 200);
    let rect = Rect { x: 0, y: 0, w: 250, h: 40 };
    assert_eq!(get_game_type(&frame, rect), GameType::QuickPlay);
    assert_eq!(GameType::QuickPlay.label(), "Quick Play");
}

#[test]
fn gameover_detected_on_exact_reference_color() {
    let frame: Screenshot<InReplay> = solid_frame(46, 181, 229);
    assert!(frame.is_gameover());
}

#[test]
fn gameover_rejected_beyond_distance_three() {
    // Manhattan distance 4 from the reference color
    let frame: Screenshot<InReplay> = solid_frame(50, 181, 229);
    assert!(!frame.is_gameover());
}

#[test]
fn pause_detected_within_distance_ten() {
    let frame: Screenshot<InReplay> = solid_frame(193, 193, 193);
    assert!(frame.is_definitely_paused());
    let close: Screenshot<InReplay> = solid_frame(196, 196, 196);
    assert!(close.is_definitely_paused());
}

#[test]
fn pause_rejected_beyond_distance_ten() {
    // distance 17 from the paused tint
    let frame: Screenshot<InReplay> = solid_frame(210, 193, 193);
    assert!(!frame.is_definitely_paused());
}

#[test]
fn replay_rows_require_mid_gray_band() {
    let gray: Screenshot<ReplaysMenu> = solid_frame(120, 120, 120);
    let row = Rect { x: 70, y: 428, w: 1780, h: 40 };
    assert!(is_replay(&gray, row));
    let white: Screenshot<ReplaysMenu> = solid_frame(255, 255, 255);
    assert!(!is_replay(&white, row));
}

#[test]
fn get_replay_reads_swatch_of_populated_row() {
    let gray: Screenshot<ReplaysMenu> = solid_frame(120, 120, 120);
    let row = Rect { x: 70, y: 428, w: 1780, h: 40 };
    let rep = get_replay(&gray, row).expect("populated row");
    assert_eq!(rep.game_type, GameType::CustomGame);
    let white: Screenshot<ReplaysMenu> = solid_frame(255, 255, 255);
    assert!(get_replay(&white, row).is_none());
}

#[test]
fn get_replays_reads_all_populated_rows() {
    let gray: Screenshot<ReplaysMenu> = solid_frame(120, 120, 120);
    let reps = gray.get_replays();
    assert_eq!(reps.len(), 11);
    for rep in &reps {
        assert_eq!(rep.game_type, GameType::CustomGame);
    }
    let white: Screenshot<ReplaysMenu> = solid_frame(255, 255, 255);
    assert_eq!(white.get_replays().len(), 0);
}

#[test]
fn duration_reads_rendered_time_text() {
    let table = get_chars();
    // black-on-white text renders, after grayscale inversion, into exactly
    // the bright-on-black glyph bitmaps
    let text = "3:45";
    let mut data = vec![255u8; 1920 * 1080 * 3];
    let rect_x = 300usize;
    let rect_y = 500usize;
    for (k, ch) in text.chars().enumerate() {
        let tpl = table.iter().find(|t| t.ch == ch).expect("glyph in table");
        for y in 0..tpl.img.height() as usize {
            for x in 0..tpl.img.width() as usize {
                if tpl.img.get(x as u32, y as u32) != 0 {
                    let px = rect_x + k * 7 + x;
                    let py = rect_y + y;
                    let idx = 3 * (py * 1920 + px);
                    data[idx] = 0;
                    data[idx + 1] = 0;
                    data[idx + 2] = 0;
                }
            }
        }
    }
    let frame: Screenshot<ReplaysMenu> = Screenshot::from_rgb_bytes(data).expect("frame");
    let rect = Rect { x: rect_x as u32, y: rect_y as u32, w: 4 * 7, h: 10 };
    assert_eq!(duration(&frame, rect, &table), Some(3 * 60 + 45));
}

#[test]
fn duration_of_blank_region_is_unknown() {
    let table = get_chars();
    let frame: Screenshot<ReplaysMenu> = solid_frame(255, 255, 255);
    let rect = Rect { x: 300, y: 500, w: 70, h: 10 };
    assert_eq!(duration(&frame, rect, &table), None);
}
