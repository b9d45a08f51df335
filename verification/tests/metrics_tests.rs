use ow_replay_renderer::frame::{Color, Rect, ReplaysMenu, Screenshot};
use ow_replay_renderer::metrics::{mean_color_distance, tonal_band_fraction};

fn solid_frame(r: u8, g: u8, b: u8) -> Screenshot<ReplaysMenu> {
    let mut data = Vec::with_capacity(1920 * 1080 * 3);
    for _ in 0..1920 * 1080 {
        data.push(r);
        data.push(g);
        data.push(b);
    }
    Screenshot::from_rgb_bytes(data).expect("solid frame")
}

#[test]
fn mean_distance_of_uniform_region_is_zero() {
    let c = Color { r: 37, g: 201, b: 5 };
    let frame = solid_frame(c.r, c.g, c.b);
    let rect = Rect { x: 100, y: 200, w: 50, h: 40 };
    let d = mean_color_distance(&frame, rect, c);
    assert!(d.is_zero());
    assert_eq!(d.sum, 0);
    assert_eq!(d.count, 50 * 40);
}

#[test]
fn mean_distance_is_summed_channel_average() {
    let frame = solid_frame(10, 20, 30);
    let rect = Rect { x: 0, y: 0, w: 10, h: 10 };
    let d = mean_color_distance(&frame, rect, Color { r: 13, g: 25, b: 35 });
    // per-pixel Manhattan distance: 3 + 5 + 5 = 13
    assert_eq!(d.sum, 13 * 100);
    assert_eq!(d.count, 100);
    assert!(d.lt(14));
    assert!(!d.lt(13));
    assert!(d.gt(12));
    assert!(!d.gt(13));
}

#[test]
fn band_fraction_of_region_outside_band_is_zero() {
    // luma of (200, 200, 200) is 200, outside [100, 150)
    let frame = solid_frame(200, 200, 200);
    let rect = Rect { x: 70, y: 428, w: 1780, h: 40 };
    let f = tonal_band_fraction(&frame, rect, 100, 150);
    assert_eq!(f.in_band, 0);
    assert_eq!(f.total, 1780 * 40);
    assert!(!f.over_third());
}

#[test]
fn band_fraction_of_region_inside_band_is_one() {
    // luma of (120, 120, 120) is 120, inside [100, 150)
    let frame = solid_frame(120, 120, 120);
    let rect = Rect { x: 70, y: 428, w: 1780, h: 40 };
    let f = tonal_band_fraction(&frame, rect, 100, 150);
    assert_eq!(f.in_band, f.total);
    assert_eq!(f.total, 1780 * 40);
    assert!(f.over_third());
}

#[test]
fn band_fraction_band_bounds_are_half_open() {
    // luma of (150, 150, 150) is exactly 150: outside [100, 150)
    let frame = solid_frame(150, 150, 150);
    let rect = Rect { x: 0, y: 0, w: 8, h: 8 };
    let f = tonal_band_fraction(&frame, rect, 100, 150);
    assert_eq!(f.in_band, 0);
    // luma 100 is inside
    let frame2 = solid_frame(100, 100, 100);
    let f2 = tonal_band_fraction(&frame2, rect, 100, 150);
    assert_eq!(f2.in_band, f2.total);
}
