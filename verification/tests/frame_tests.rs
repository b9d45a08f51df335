use base64::Engine;
use ow_replay_renderer::frame::{GrayFrame, InReplay, Rect, ReplaysMenu, Screenshot};
use std::io::Cursor;

fn png_data_uri(width: u32, height: u32) -> String {
    let img = image::RgbImage::from_fn(width, height, |x, y| {
        image::Rgb([(x % 251) as u8, (y % 241) as u8, ((x + y) % 17) as u8])
    });
    let mut buf: Vec<u8> = Vec::new();
    img.write_to(&mut Cursor::new(&mut buf), image::ImageFormat::Png)
        .expect("png encode");
    let b64 = base64::engine::general_purpose::STANDARD.encode(&buf);
    format!("data:image/png;base64,{}", b64)
}

#[test]
fn payload_decodes_to_original_pixels() {
    let uri = png_data_uri(1920, 1080);
    let frame: Screenshot<InReplay> = Screenshot::new(&uri).expect("valid payload");
    let c = frame.color_at(123, 456);
    assert_eq!(c.r, (123 % 251) as u8);
    assert_eq!(c.g, (456 % 241) as u8);
    assert_eq!(c.b, ((123 + 456) % 17) as u8);
    let c2 = frame.color_at(1919, 1079);
    assert_eq!(c2.r, (1919 % 251) as u8);
}

#[test]
fn payload_with_wrong_prefix_is_rejected() {
    let uri = png_data_uri(1920, 1080);
    let stripped = &uri["data:image/png;base64,".len()..];
    assert!(Screenshot::<InReplay>::new(stripped).is_none());
    let jpeg = format!("data:image/jpeg;base64,{}", stripped);
    assert!(Screenshot::<InReplay>::new(&jpeg).is_none());
}

#[test]
fn payload_with_invalid_base64_is_rejected() {
    assert!(Screenshot::<InReplay>::new("data:image/png;base64,!!!not-base64!!!").is_none());
}

#[test]
fn payload_with_undecodable_png_is_rejected() {
    let junk = base64::engine::general_purpose::STANDARD.encode(b"not a png at all");
    let uri = format!("data:image/png;base64,{}", junk);
    assert!(Screenshot::<InReplay>::new(&uri).is_none());
}

#[test]
fn payload_at_wrong_resolution_is_rejected() {
    let uri = png_data_uri(100, 100);
    assert!(Screenshot::<InReplay>::new(&uri).is_none());
}

#[test]
fn raw_frame_construction_checks_length() {
    assert!(Screenshot::<ReplaysMenu>::from_rgb_bytes(vec![0u8; 10]).is_none());
    assert!(Screenshot::<ReplaysMenu>::from_rgb_bytes(vec![0u8; 1920 * 1080 * 3]).is_some());
}

#[test]
fn gray_frame_construction_checks_length() {
    assert!(GrayFrame::from_bytes(4, 4, vec![0u8; 15]).is_none());
    let g = GrayFrame::from_bytes(4, 4, (0u8..16).collect()).expect("gray");
    assert_eq!(g.width(), 4);
    assert_eq!(g.height(), 4);
    assert_eq!(g.get(2, 3), 14);
}

#[test]
fn gray_invert_region_inverts_brightness() {
    // solid (120, 120, 120) has brightness 120; inverted samples are 135
    let data = vec![120u8; 1920 * 1080 * 3];
    let frame: Screenshot<InReplay> = Screenshot::from_rgb_bytes(data).expect("frame");
    let g = frame.gray_invert_region(Rect { x: 10, y: 20, w: 30, h: 5 });
    assert_eq!(g.width(), 30);
    assert_eq!(g.height(), 5);
    for y in 0..5 {
        for x in 0..30 {
            assert_eq!(g.get(x, y), 255 - 120);
        }
    }
}
