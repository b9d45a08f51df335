use ow_replay_renderer::frame::GrayFrame;
use ow_replay_renderer::ocr::{get_chars, load_char, ocr, parse_duration, Template};

const ALPHABET: &str = "0123456789:'ABCDEGHIKLMNOPRSTUWYZ";

fn render(table: &[Template], text: &str) -> GrayFrame {
    let glyphs: Vec<&Template> = text
        .chars()
        .map(|c| table.iter().find(|t| t.ch == c).expect("glyph in table"))
        .collect();
    let h = 10u32;
    let w: u32 = glyphs.iter().map(|t| t.img.width()).sum();
    let mut data = Vec::with_capacity((w * h) as usize);
    for y in 0..h {
        for g in &glyphs {
            for x in 0..g.img.width() {
                data.push(g.img.get(x, y));
            }
        }
    }
    GrayFrame::from_bytes(w, h, data).expect("rendered image")
}

#[test]
fn table_holds_the_whole_alphabet() {
    let table = get_chars();
    assert_eq!(table.len(), ALPHABET.chars().count());
    for (t, c) in table.iter().zip(ALPHABET.chars()) {
        assert_eq!(t.ch, c);
        assert_eq!(t.img.width(), 7);
        assert_eq!(t.img.height(), 10);
    }
}

#[test]
fn glyph_round_trip_full_alphabet() {
    let table = get_chars();
    let image = render(&table, ALPHABET);
    assert_eq!(ocr(&image, &table), ALPHABET);
}

#[test]
fn glyph_round_trip_sample_text() {
    let table = get_chars();
    let image = render(&table, "1:23'HELLO");
    assert_eq!(ocr(&image, &table), "1:23'HELLO");
}

#[test]
fn ocr_of_blank_image_is_empty() {
    let table = get_chars();
    let image = GrayFrame::from_bytes(40, 10, vec![0u8; 400]).expect("blank");
    assert_eq!(ocr(&image, &table), "");
}

#[test]
fn load_char_rejects_inkless_bitmaps() {
    assert!(load_char('X', 7, &vec![0u8; 10]).is_none());
}

#[test]
fn load_char_reads_bits_as_pixels() {
    let t = load_char('X', 3, &vec![0b001, 0b010, 0b100]).expect("template");
    assert_eq!(t.ch, 'X');
    assert_eq!(t.img.width(), 3);
    assert_eq!(t.img.height(), 3);
    assert_eq!(t.img.get(0, 0), 255);
    assert_eq!(t.img.get(1, 0), 0);
    assert_eq!(t.img.get(1, 1), 255);
    assert_eq!(t.img.get(2, 2), 255);
    assert_eq!(t.img.get(0, 2), 0);
}

#[test]
fn load_char_rejects_bad_dimensions() {
    assert!(load_char('X', 0, &vec![1u8; 3]).is_none());
    assert!(load_char('X', 9, &vec![1u8; 3]).is_none());
    assert!(load_char('X', 7, &vec![]).is_none());
}

#[test]
fn parse_duration_minute_second() {
    assert_eq!(parse_duration("3:45"), Some(3 * 60 + 45));
    assert_eq!(parse_duration("0:00"), Some(0));
    assert_eq!(parse_duration("10:05"), Some(605));
}

#[test]
fn parse_duration_hour_minute_second() {
    assert_eq!(parse_duration("1:02:03"), Some(3723));
    assert_eq!(parse_duration("0:0:0"), Some(0));
}

#[test]
fn parse_duration_rejects_malformed_text() {
    assert_eq!(parse_duration(""), None);
    assert_eq!(parse_duration("12"), None);
    assert_eq!(parse_duration(":5"), None);
    assert_eq!(parse_duration("5:"), None);
    assert_eq!(parse_duration("1:2:3:4"), None);
    assert_eq!(parse_duration("a:b"), None);
    assert_eq!(parse_duration("99999999:00"), None);
}
