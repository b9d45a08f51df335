//! Screen-state predicates built on the region metrics.
//!
//! These read a tagged frame and resolve to a definite label or boolean;
//! recognition failures degrade to `Unknown` rather than propagating errors.

use vstd::prelude::*;
use crate::frame::{Color, Rect, Screenshot, ReplaysMenu, InReplay, spec_gray_invert};
use crate::ocr::{Template, table_wf, ocr, spec_ocr, parse_duration, spec_duration_seconds};
use crate::metrics::{
    MeanDistance, BandFraction, mean_color_distance, tonal_band_fraction, rect_dist_sum,
    rect_band_count,
};
use crate::layout::{
    SCREEN_WIDTH, SCREEN_HEIGHT, REPLAY_ROW_X, REPLAY_ROW_Y, REPLAY_ROW_WIDTH, REPLAY_ROW_HEIGHT,
    REPLAY_ROW_COUNT, GAME_TYPE_WIDTH, GAME_TYPE_HEIGHT, ROW_BAND_LOW, ROW_BAND_HIGH,
    GAMEOVER_X, GAMEOVER_Y, GAMEOVER_WIDTH, GAMEOVER_HEIGHT, GAMEOVER_MAX_DISTANCE,
    PAUSE_X, PAUSE_Y, PAUSE_WIDTH, PAUSE_HEIGHT, PAUSE_MAX_DISTANCE, GAME_TYPE_MAX_DISTANCE,
};

verus! {

/// The game-type label read from a replay row's color swatch.
#[derive(Clone, Copy, Debug, PartialEq, Eq, Structural)]
pub enum GameType {
    /// The custom-game swatch color.
    CustomGame,
    /// The arcade swatch color.
    Arcade,
    /// The quick-play swatch color.
    QuickPlay,
    /// No palette entry was near enough.
    Unknown,
}

impl GameType {
    /// The display label of this game type.
    pub fn label(&self) -> (r: &'static str)
        ensures
            self is CustomGame ==> r@ == "Custom Game"@,
            self is Arcade ==> r@ == "Arcade"@,
            self is QuickPlay ==> r@ == "Quick Play"@,
            self is Unknown ==> r@ == "Unknown"@,
    {
        match self {
            GameType::CustomGame => "Custom Game",
            GameType::Arcade => "Arcade",
            GameType::QuickPlay => "Quick Play",
            GameType::Unknown => "Unknown",
        }
    }
}

/// The palette color of the custom-game swatch.
pub open spec fn custom_game_color() -> Color {
    Color { r: 120, g: 120, b: 120 }
}

/// The palette color of the arcade swatch.
pub open spec fn arcade_color() -> Color {
    Color { r: 100, g: 175, b: 100 }
}

/// The palette color of the quick-play swatch.
pub open spec fn quick_play_color() -> Color {
    Color { r: 70, g: 140, b: 200 }
}

/// The game type a swatch region resolves to: the palette entry with the
/// smallest mean color distance, in palette order on ties, or `Unknown` when
/// even the nearest entry's mean distance exceeds the acceptance bound.
pub open spec fn spec_game_type(raw: Seq<u8>, rect: Rect) -> GameType {
    let w = SCREEN_WIDTH as int;
    let dc = rect_dist_sum(raw, w, rect, rect.h as nat, custom_game_color());
    let da = rect_dist_sum(raw, w, rect, rect.h as nat, arcade_color());
    let dq = rect_dist_sum(raw, w, rect, rect.h as nat, quick_play_color());
    let best1 = if da < dc { da } else { dc };
    let type1 = if da < dc { GameType::Arcade } else { GameType::CustomGame };
    let best2 = if dq < best1 { dq } else { best1 };
    let type2 = if dq < best1 { GameType::QuickPlay } else { type1 };
    if best2 > (GAME_TYPE_MAX_DISTANCE as int) * rect.area() {
        GameType::Unknown
    } else {
        type2
    }
}

/// Classifies a swatch region against the fixed palette by nearest mean
/// color distance; `Unknown` when nothing is near enough.
pub fn get_game_type(frame: &Screenshot<ReplaysMenu>, rect: Rect) -> (r: GameType)
    requires
        frame.wf(),
        rect.within(SCREEN_WIDTH as int, SCREEN_HEIGHT as int),
    ensures
        r == spec_game_type(frame.raw(), rect),
{
    let dc: MeanDistance = mean_color_distance(frame, rect, Color { r: 120, g: 120, b: 120 });
    let da: MeanDistance = mean_color_distance(frame, rect, Color { r: 100, g: 175, b: 100 });
    let dq: MeanDistance = mean_color_distance(frame, rect, Color { r: 70, g: 140, b: 200 });
    let best1: MeanDistance = if da.sum < dc.sum { da } else { dc };
    let type1: GameType = if da.sum < dc.sum { GameType::Arcade } else { GameType::CustomGame };
    let best2: MeanDistance = if dq.sum < best1.sum { dq } else { best1 };
    let type2: GameType = if dq.sum < best1.sum { GameType::QuickPlay } else { type1 };
    if best2.gt(GAME_TYPE_MAX_DISTANCE) {
        GameType::Unknown
    } else {
        type2
    }
}

/// One parsed row of the replay list.
#[derive(Clone, Copy, Debug, PartialEq, Eq, Structural)]
pub struct Replay {
    /// The game-type label read from the row's swatch.
    pub game_type: GameType,
}

/// A row region holds a populated replay entry when strictly more than one
/// third of its pixels fall in the mid-gray brightness band.
pub open spec fn spec_is_replay(raw: Seq<u8>, rect: Rect) -> bool {
    3 * rect_band_count(
        raw, SCREEN_WIDTH as int, rect, rect.h as nat, ROW_BAND_LOW as int, ROW_BAND_HIGH as int)
        > rect.area()
}

/// Whether a fixed-offset row of the replay list actually contains a replay
/// entry, judged by the text-on-background brightness signature of the row.
pub fn is_replay(frame: &Screenshot<ReplaysMenu>, rect: Rect) -> (r: bool)
    requires
        frame.wf(),
        rect.within(SCREEN_WIDTH as int, SCREEN_HEIGHT as int),
    ensures
        r == spec_is_replay(frame.raw(), rect),
{
    let f: BandFraction = tonal_band_fraction(frame, rect, ROW_BAND_LOW, ROW_BAND_HIGH);
    f.over_third()
}

/// The swatch sub-region at the left edge of a row region.
pub open spec fn spec_swatch_rect(rect: Rect) -> Rect {
    Rect { x: rect.x, y: rect.y, w: GAME_TYPE_WIDTH, h: GAME_TYPE_HEIGHT }
}

/// The parse of one row region: `None` for an empty row, otherwise the
/// game-type label of its swatch.
pub open spec fn spec_get_replay(raw: Seq<u8>, rect: Rect) -> Option<Replay> {
    if spec_is_replay(raw, rect) {
        Some(Replay { game_type: spec_game_type(raw, spec_swatch_rect(rect)) })
    } else {
        None
    }
}

/// Best-effort parse of one replay-list row region.
pub fn get_replay(frame: &Screenshot<ReplaysMenu>, rect: Rect) -> (r: Option<Replay>)
    requires
        frame.wf(),
        rect.within(SCREEN_WIDTH as int, SCREEN_HEIGHT as int),
        rect.w >= GAME_TYPE_WIDTH,
        rect.h >= GAME_TYPE_HEIGHT,
    ensures
        r == spec_get_replay(frame.raw(), rect),
{
    if is_replay(frame, rect) {
        let swatch = Rect { x: rect.x, y: rect.y, w: GAME_TYPE_WIDTH, h: GAME_TYPE_HEIGHT };
        Some(Replay { game_type: get_game_type(frame, swatch) })
    } else {
        None
    }
}

/// The fixed region of the `i`-th row of the replay list (zero-based).
pub open spec fn spec_replay_row_rect(i: int) -> Rect {
    Rect {
        x: REPLAY_ROW_X,
        y: (REPLAY_ROW_Y + i * REPLAY_ROW_HEIGHT) as u32,
        w: REPLAY_ROW_WIDTH,
        h: REPLAY_ROW_HEIGHT,
    }
}

/// The parses of the first `m` rows of the replay list, empty rows skipped.
pub open spec fn spec_replays(raw: Seq<u8>, m: nat) -> Seq<Replay>
    decreases m,
{
    if m == 0 {
        Seq::empty()
    } else {
        spec_replays(raw, (m - 1) as nat)
            + match spec_get_replay(raw, spec_replay_row_rect(m - 1)) {
                Some(r) => seq![r],
                None => Seq::empty(),
            }
    }
}

impl Screenshot<ReplaysMenu> {
    /// Parses every populated row of the replay list, top to bottom.
    pub fn get_replays(&self) -> (r: Vec<Replay>)
        requires
            self.wf(),
        ensures
            r@ == spec_replays(self.raw(), REPLAY_ROW_COUNT as nat),
    {
        let mut result: Vec<Replay> = Vec::new();
        let mut i: u32 = 0;
        while i < REPLAY_ROW_COUNT
            invariant
                self.wf(),
                i <= REPLAY_ROW_COUNT,
                result@ == spec_replays(self.raw(), i as nat),
            decreases REPLAY_ROW_COUNT - i,
        {
            let rect = Rect {
                x: REPLAY_ROW_X,
                y: REPLAY_ROW_Y + i * REPLAY_ROW_HEIGHT,
                w: REPLAY_ROW_WIDTH,
                h: REPLAY_ROW_HEIGHT,
            };
            match get_replay(self, rect) {
                Some(rep) => { result.push(rep); },
                None => {},
            }
            i = i + 1;
        }
        result
    }
}

/// The region of the scrub bar probed for the match-end color.
pub open spec fn spec_gameover_rect() -> Rect {
    Rect { x: GAMEOVER_X, y: GAMEOVER_Y, w: GAMEOVER_WIDTH, h: GAMEOVER_HEIGHT }
}

/// The highlighted seek-control color that appears when the playback
/// controls auto-expand at match end.
pub open spec fn gameover_color() -> Color {
    Color { r: 46, g: 181, b: 229 }
}

/// The match has ended: the scrub-bar probe region sits within the match-end
/// distance of the highlighted seek color.
pub open spec fn spec_is_gameover(raw: Seq<u8>) -> bool {
    rect_dist_sum(raw, SCREEN_WIDTH as int, spec_gameover_rect(),
        GAMEOVER_HEIGHT as nat, gameover_color())
        < (GAMEOVER_MAX_DISTANCE as int) * spec_gameover_rect().area()
}

/// The region probed for the paused tint of the pause button.
pub open spec fn spec_pause_rect() -> Rect {
    Rect { x: PAUSE_X, y: PAUSE_Y, w: PAUSE_WIDTH, h: PAUSE_HEIGHT }
}

/// The tint of the middle of the pause button while playback is paused.
pub open spec fn pause_color() -> Color {
    Color { r: 193, g: 193, b: 193 }
}

/// Playback is paused: the pause-button probe region sits within the pause
/// distance of the paused tint.
pub open spec fn spec_is_definitely_paused(raw: Seq<u8>) -> bool {
    rect_dist_sum(raw, SCREEN_WIDTH as int, spec_pause_rect(),
        PAUSE_HEIGHT as nat, pause_color())
        < (PAUSE_MAX_DISTANCE as int) * spec_pause_rect().area()
}

impl Screenshot<InReplay> {
    /// Whether the match has ended. This leans on a UI side effect: the
    /// playback controls auto-expand once playback reaches the end, which
    /// puts the highlighted seek color into the probe region.
    pub fn is_gameover(&self) -> (r: bool)
        requires
            self.wf(),
        ensures
            r == spec_is_gameover(self.raw()),
    {
        let rect = Rect { x: GAMEOVER_X, y: GAMEOVER_Y, w: GAMEOVER_WIDTH, h: GAMEOVER_HEIGHT };
        let d = mean_color_distance(self, rect, Color { r: 46, g: 181, b: 229 });
        d.lt(GAMEOVER_MAX_DISTANCE)
    }

    /// Whether playback is definitely paused, measured on the middle of the
    /// pause button.
    pub fn is_definitely_paused(&self) -> (r: bool)
        requires
            self.wf(),
        ensures
            r == spec_is_definitely_paused(self.raw()),
    {
        let rect = Rect { x: PAUSE_X, y: PAUSE_Y, w: PAUSE_WIDTH, h: PAUSE_HEIGHT };
        let d = mean_color_distance(self, rect, Color { r: 193, g: 193, b: 193 });
        d.lt(PAUSE_MAX_DISTANCE)
    }
}


/// Reads the duration field of a replay row region: cut the region out as
/// inverted grayscale, run the glyph matcher over the template table, and
/// parse the text as `M:S` or `H:M:S`. A failed read degrades to `None`,
/// which upstream reports as an unknown duration rather than an error.
pub fn duration(frame: &Screenshot<ReplaysMenu>, rect: Rect, table: &Vec<Template>)
    -> (r: Option<u64>)
    requires
        frame.wf(),
        rect.within(SCREEN_WIDTH as int, SCREEN_HEIGHT as int),
        table_wf(table@),
    ensures
        ({
            let text = spec_ocr(
                spec_gray_invert(frame.raw(), rect), rect.w as int, rect.h as int, table@);
            &&& r matches Some(v) ==> spec_duration_seconds(text) == Some(v as int)
            &&& r is None ==> spec_duration_seconds(text) is None
        }),
{
    let g = frame.gray_invert_region(rect);
    let text = ocr(&g, table);
    parse_duration(text.as_str())
}

} // verus!
