//! Fixed screen-layout constants for the game client at 1920x1080.
//!
//! Every pixel offset, region size, reference color and threshold that the
//! perception code depends on is named here, so a layout or resolution change
//! is a one-place edit.

use vstd::prelude::*;

verus! {

/// Width of a captured frame in pixels.
pub const SCREEN_WIDTH: u32 = 1920;
/// Height of a captured frame in pixels.
pub const SCREEN_HEIGHT: u32 = 1080;

/// Left edge of each row of the replay list.
pub const REPLAY_ROW_X: u32 = 70;
/// Top edge of the first row of the replay list.
pub const REPLAY_ROW_Y: u32 = 428;
/// Width of a replay-list row.
pub const REPLAY_ROW_WIDTH: u32 = 1780;
/// Height of a replay-list row, and the vertical step between rows.
pub const REPLAY_ROW_HEIGHT: u32 = 40;
/// Number of rows shown in the replay list.
pub const REPLAY_ROW_COUNT: u32 = 11;

/// Width of the game-type swatch at the left edge of a replay row.
pub const GAME_TYPE_WIDTH: u32 = 250;
/// Height of the game-type swatch.
pub const GAME_TYPE_HEIGHT: u32 = 40;

/// Lower bound (inclusive) of the mid-gray brightness band that marks a
/// populated replay row.
pub const ROW_BAND_LOW: u32 = 100;
/// Upper bound (exclusive) of the mid-gray brightness band.
pub const ROW_BAND_HIGH: u32 = 150;

/// Region of the scrub bar that shows the highlighted seek color once the
/// playback controls auto-expand at match end.
pub const GAMEOVER_X: u32 = 1689;
/// Top edge of the scrub-bar probe region.
pub const GAMEOVER_Y: u32 = 948;
/// Width of the scrub-bar probe region.
pub const GAMEOVER_WIDTH: u32 = 50;
/// Height of the scrub-bar probe region.
pub const GAMEOVER_HEIGHT: u32 = 14;
/// Mean-distance bound (exclusive) for the match-end probe.
pub const GAMEOVER_MAX_DISTANCE: u32 = 3;

/// Left edge of the middle of the pause-button glyph.
pub const PAUSE_X: u32 = 316;
/// Top edge of the pause probe region.
pub const PAUSE_Y: u32 = 997;
/// Width of the pause probe region.
pub const PAUSE_WIDTH: u32 = 4;
/// Height of the pause probe region.
pub const PAUSE_HEIGHT: u32 = 15;
/// Mean-distance bound (exclusive) for the pause probe; looser than the
/// match-end bound because the button glyph renders with more anti-aliasing
/// variance.
pub const PAUSE_MAX_DISTANCE: u32 = 10;

/// Farthest acceptable mean distance to a palette entry before a game-type
/// swatch is reported unknown.
pub const GAME_TYPE_MAX_DISTANCE: u32 = 100;

/// Click target that switches to the replays tab of the menu.
pub const REPLAYS_TAB_X: u32 = 380;
/// Vertical coordinate of the replays-tab click target.
pub const REPLAYS_TAB_Y: u32 = 62;
/// Click target that dismisses the playback controls.
pub const DISMISS_CONTROLS_X: u32 = 1710;
/// Vertical coordinate of the dismiss-controls click target.
pub const DISMISS_CONTROLS_Y: u32 = 1003;

/// Width of the normalized username-badge window.
pub const BADGE_WIDTH: u32 = 180;
/// Height of the normalized username-badge window.
pub const BADGE_HEIGHT: u32 = 40;

} // verus!
