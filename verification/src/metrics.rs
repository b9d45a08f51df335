//! Low-level pixel statistics over frame regions.
//!
//! Two metrics drive every screen-state predicate: the mean Manhattan color
//! distance of a region against a reference color, and the fraction of a
//! region whose brightness falls in a tonal band. Both are kept as exact
//! rationals (a sum together with a pixel count) instead of rounded
//! quotients, so threshold comparisons downstream are exact.

use vstd::prelude::*;
use crate::frame::{Color, Rect, Screenshot, OWContext, color_at, luma};
use crate::layout::{SCREEN_WIDTH, SCREEN_HEIGHT};

verus! {

/// Per-pixel Manhattan distance in RGB space, between 0 and 765.
pub open spec fn px_dist(a: Color, b: Color) -> int {
    abs_diff(a.r as int, b.r as int) + abs_diff(a.g as int, b.g as int)
        + abs_diff(a.b as int, b.b as int)
}

/// Absolute difference.
pub open spec fn abs_diff(a: int, b: int) -> int {
    if a >= b { a - b } else { b - a }
}

/// Sum of `px_dist` against `target` over the first `n` pixels of the row at
/// height `y` starting at column `x0`.
pub open spec fn row_dist_sum(raw: Seq<u8>, width: int, y: int, x0: int, n: nat, target: Color) -> int
    decreases n,
{
    if n == 0 {
        0
    } else {
        row_dist_sum(raw, width, y, x0, (n - 1) as nat, target)
            + px_dist(color_at(raw, width, x0 + n - 1, y), target)
    }
}

/// Sum of `px_dist` against `target` over the first `m` rows of `rect`.
pub open spec fn rect_dist_sum(raw: Seq<u8>, width: int, rect: Rect, m: nat, target: Color) -> int
    decreases m,
{
    if m == 0 {
        0
    } else {
        rect_dist_sum(raw, width, rect, (m - 1) as nat, target)
            + row_dist_sum(raw, width, rect.y + m - 1, rect.x as int, rect.w as nat, target)
    }
}

/// Mean color distance of a region, kept exact as `sum / count`.
#[derive(Clone, Copy, Debug, PartialEq, Eq, Structural)]
pub struct MeanDistance {
    /// Total Manhattan distance over all pixels of the region.
    pub sum: u64,
    /// Number of pixels in the region.
    pub count: u64,
}

impl MeanDistance {
    /// The counts a 1920x1080 region can produce.
    pub open spec fn wf(self) -> bool {
        &&& self.count <= 2073600
        &&& self.sum <= 765 * self.count
    }

    /// The mean is strictly below `t` (false for an empty region, as a
    /// float comparison against its undefined mean would be).
    pub open spec fn spec_lt(self, t: int) -> bool {
        self.sum < t * self.count
    }

    /// The mean is strictly above `t` (false for an empty region).
    pub open spec fn spec_gt(self, t: int) -> bool {
        self.sum > t * self.count
    }

    /// The mean is strictly below `t`.
    pub fn lt(&self, t: u32) -> (r: bool)
        requires
            self.wf(),
        ensures
            r == self.spec_lt(t as int),
    {
        proof {
            assert((t as int) * (self.count as int) <= 0xFFFF_FFFFu64 * 2073600)
                by (nonlinear_arith)
                requires t <= 0xFFFF_FFFFu64 && self.count <= 2073600;
        }
        self.sum < (t as u64) * self.count
    }

    /// The mean is strictly above `t`.
    pub fn gt(&self, t: u32) -> (r: bool)
        requires
            self.wf(),
        ensures
            r == self.spec_gt(t as int),
    {
        proof {
            assert((t as int) * (self.count as int) <= 0xFFFF_FFFFu64 * 2073600)
                by (nonlinear_arith)
                requires t <= 0xFFFF_FFFFu64 && self.count <= 2073600;
        }
        self.sum > (t as u64) * self.count
    }

    /// The mean is exactly zero: every pixel equals the reference color.
    pub fn is_zero(&self) -> (r: bool)
        ensures
            r == (self.sum == 0),
    {
        self.sum == 0
    }
}

/// Mean Manhattan color distance of the region against `target`: the sum over
/// every pixel of the per-channel absolute differences, divided by the pixel
/// count (not by count times channels), kept exact as a sum/count pair.
pub fn mean_color_distance<C: OWContext>(frame: &Screenshot<C>, rect: Rect, target: Color)
    -> (r: MeanDistance)
    requires
        frame.wf(),
        rect.within(SCREEN_WIDTH as int, SCREEN_HEIGHT as int),
    ensures
        r.sum == rect_dist_sum(frame.raw(), SCREEN_WIDTH as int, rect, rect.h as nat, target),
        r.count == rect.area(),
        r.wf(),
{
    let mut sum: u64 = 0;
    let mut j: u32 = 0;
    while j < rect.h
        invariant
            frame.wf(),
            rect.within(SCREEN_WIDTH as int, SCREEN_HEIGHT as int),
            j <= rect.h,
            sum == rect_dist_sum(frame.raw(), SCREEN_WIDTH as int, rect, j as nat, target),
            sum <= 765 * (j as int) * (rect.w as int),
        decreases rect.h - j,
    {
        let y: u32 = rect.y + j;
        let mut i: u32 = 0;
        let mut row_sum: u64 = 0;
        while i < rect.w
            invariant
                frame.wf(),
                rect.within(SCREEN_WIDTH as int, SCREEN_HEIGHT as int),
                j < rect.h,
                y == rect.y + j,
                i <= rect.w,
                row_sum == row_dist_sum(
                    frame.raw(), SCREEN_WIDTH as int, y as int, rect.x as int, i as nat, target),
                row_sum <= 765 * (i as int),
            decreases rect.w - i,
        {
            let c = frame.color_at(rect.x + i, y);
            let dr: u64 = if c.r >= target.r { (c.r - target.r) as u64 } else { (target.r - c.r) as u64 };
            let dg: u64 = if c.g >= target.g { (c.g - target.g) as u64 } else { (target.g - c.g) as u64 };
            let db: u64 = if c.b >= target.b { (c.b - target.b) as u64 } else { (target.b - c.b) as u64 };
            row_sum = row_sum + dr + dg + db;
            i = i + 1;
        }
        proof {
            assert(765 * (j as int) * (rect.w as int) + 765 * (rect.w as int)
                == 765 * ((j + 1) as int) * (rect.w as int)) by (nonlinear_arith);
            assert(765 * ((j + 1) as int) * (rect.w as int) <= 765 * 1080 * 1920)
                by (nonlinear_arith)
                requires j + 1 <= rect.h && rect.h <= 1080 && rect.w <= 1920;
        }
        sum = sum + row_sum;
        j = j + 1;
    }
    proof {
        assert(765 * (rect.h as int) * (rect.w as int) <= 765 * ((rect.w * rect.h) as int))
            by (nonlinear_arith);
        assert((rect.w as int) * (rect.h as int) <= 1920 * 1080) by (nonlinear_arith)
            requires rect.w <= 1920 && rect.h <= 1080;
    }
    let count: u64 = (rect.w as u64) * (rect.h as u64);
    MeanDistance { sum, count }
}

/// A region filled with the reference color has mean distance exactly zero.
pub proof fn lemma_uniform_region_distance_zero(raw: Seq<u8>, width: int, rect: Rect, c: Color)
    requires
        forall|x: int, y: int|
            rect.x <= x < rect.x + rect.w && rect.y <= y < rect.y + rect.h
                ==> #[trigger] color_at(raw, width, x, y) == c,
    ensures
        rect_dist_sum(raw, width, rect, rect.h as nat, c) == 0,
{
    lemma_uniform_rows_distance_zero(raw, width, rect, rect.h as nat, c);
}

proof fn lemma_uniform_rows_distance_zero(raw: Seq<u8>, width: int, rect: Rect, m: nat, c: Color)
    requires
        m <= rect.h,
        forall|x: int, y: int|
            rect.x <= x < rect.x + rect.w && rect.y <= y < rect.y + rect.h
                ==> #[trigger] color_at(raw, width, x, y) == c,
    ensures
        rect_dist_sum(raw, width, rect, m, c) == 0,
    decreases m,
{
    if m > 0 {
        lemma_uniform_rows_distance_zero(raw, width, rect, (m - 1) as nat, c);
        lemma_uniform_row_distance_zero(raw, width, rect, rect.y + m - 1, rect.w as nat, c);
    }
}

proof fn lemma_uniform_row_distance_zero(raw: Seq<u8>, width: int, rect: Rect, y: int, n: nat, c: Color)
    requires
        n <= rect.w,
        rect.y <= y < rect.y + rect.h,
        forall|x: int, yy: int|
            rect.x <= x < rect.x + rect.w && rect.y <= yy < rect.y + rect.h
                ==> #[trigger] color_at(raw, width, x, yy) == c,
    ensures
        row_dist_sum(raw, width, y, rect.x as int, n, c) == 0,
    decreases n,
{
    if n > 0 {
        lemma_uniform_row_distance_zero(raw, width, rect, y, (n - 1) as nat, c);
    }
}

/// A color sample is inside the tonal band `[low, high)` when its brightness
/// is.
pub open spec fn in_band(c: Color, low: int, high: int) -> bool {
    low <= luma(c) < high
}

/// Number of pixels inside the band among the first `n` of the row at `y`.
pub open spec fn row_band_count(
    raw: Seq<u8>, width: int, y: int, x0: int, n: nat, low: int, high: int) -> int
    decreases n,
{
    if n == 0 {
        0
    } else {
        row_band_count(raw, width, y, x0, (n - 1) as nat, low, high)
            + if in_band(color_at(raw, width, x0 + n - 1, y), low, high) { 1int } else { 0int }
    }
}

/// Number of pixels inside the band among the first `m` rows of `rect`.
pub open spec fn rect_band_count(
    raw: Seq<u8>, width: int, rect: Rect, m: nat, low: int, high: int) -> int
    decreases m,
{
    if m == 0 {
        0
    } else {
        rect_band_count(raw, width, rect, (m - 1) as nat, low, high)
            + row_band_count(raw, width, rect.y + m - 1, rect.x as int, rect.w as nat, low, high)
    }
}

/// Fraction of a region's pixels inside a tonal band, kept exact as
/// `in_band / total`.
#[derive(Clone, Copy, Debug, PartialEq, Eq, Structural)]
pub struct BandFraction {
    /// Number of pixels whose brightness falls in the band.
    pub in_band: u64,
    /// Number of pixels in the region.
    pub total: u64,
}

impl BandFraction {
    /// The counts a 1920x1080 region can produce.
    pub open spec fn wf(self) -> bool {
        &&& self.total <= 2073600
        &&& self.in_band <= self.total
    }

    /// Strictly more than one third of the pixels are in the band (false for
    /// an empty region).
    pub open spec fn spec_over_third(self) -> bool {
        3 * self.in_band > self.total
    }

    /// Strictly more than one third of the pixels are in the band.
    pub fn over_third(&self) -> (r: bool)
        requires
            self.wf(),
        ensures
            r == self.spec_over_third(),
    {
        3 * self.in_band > self.total
    }
}

/// Converts the region to single-channel brightness and reports how many of
/// its pixels fall in the brightness band `[low, high)`, as an exact
/// fraction of the region's pixel count.
pub fn tonal_band_fraction<C: OWContext>(frame: &Screenshot<C>, rect: Rect, low: u32, high: u32)
    -> (r: BandFraction)
    requires
        frame.wf(),
        rect.within(SCREEN_WIDTH as int, SCREEN_HEIGHT as int),
    ensures
        r.in_band == rect_band_count(
            frame.raw(), SCREEN_WIDTH as int, rect, rect.h as nat, low as int, high as int),
        r.total == rect.area(),
        r.wf(),
{
    let mut hits: u64 = 0;
    let mut j: u32 = 0;
    while j < rect.h
        invariant
            frame.wf(),
            rect.within(SCREEN_WIDTH as int, SCREEN_HEIGHT as int),
            j <= rect.h,
            hits == rect_band_count(
                frame.raw(), SCREEN_WIDTH as int, rect, j as nat, low as int, high as int),
            hits <= (j as int) * (rect.w as int),
        decreases rect.h - j,
    {
        let y: u32 = rect.y + j;
        let mut i: u32 = 0;
        let mut row_hits: u64 = 0;
        while i < rect.w
            invariant
                frame.wf(),
                rect.within(SCREEN_WIDTH as int, SCREEN_HEIGHT as int),
                j < rect.h,
                y == rect.y + j,
                i <= rect.w,
                row_hits == row_band_count(
                    frame.raw(), SCREEN_WIDTH as int, y as int, rect.x as int, i as nat,
                    low as int, high as int),
                row_hits <= i,
            decreases rect.w - i,
        {
            let c = frame.color_at(rect.x + i, y);
            let bright: u32 = (2126 * (c.r as u32) + 7152 * (c.g as u32) + 722 * (c.b as u32)) / 10000;
            if low <= bright && bright < high {
                row_hits = row_hits + 1;
            }
            i = i + 1;
        }
        proof {
            assert((j as int) * (rect.w as int) + (rect.w as int) == ((j + 1) as int) * (rect.w as int))
                by (nonlinear_arith);
            assert(((j + 1) as int) * (rect.w as int) <= 1080 * 1920) by (nonlinear_arith)
                requires j + 1 <= rect.h && rect.h <= 1080 && rect.w <= 1920;
        }
        hits = hits + row_hits;
        j = j + 1;
    }
    proof {
        assert((rect.h as int) * (rect.w as int) == (rect.w as int) * (rect.h as int))
            by (nonlinear_arith);
        assert((rect.w as int) * (rect.h as int) <= 1920 * 1080) by (nonlinear_arith)
            requires rect.w <= 1920 && rect.h <= 1080;
    }
    let total: u64 = (rect.w as u64) * (rect.h as u64);
    BandFraction { in_band: hits, total }
}

/// A region whose every pixel lies outside the band has band count zero; one
/// whose every pixel lies inside has band count equal to its pixel count.
pub proof fn lemma_uniform_band_fraction(
    raw: Seq<u8>, width: int, rect: Rect, low: int, high: int, inside: bool)
    requires
        forall|x: int, y: int|
            rect.x <= x < rect.x + rect.w && rect.y <= y < rect.y + rect.h
                ==> in_band(#[trigger] color_at(raw, width, x, y), low, high) == inside,
    ensures
        rect_band_count(raw, width, rect, rect.h as nat, low, high)
            == if inside { rect.area() } else { 0 },
{
    lemma_uniform_band_rows(raw, width, rect, rect.h as nat, low, high, inside);
    if inside {
        assert((rect.h as int) * (rect.w as int) == (rect.w as int) * (rect.h as int))
            by (nonlinear_arith);
    }
}

proof fn lemma_uniform_band_rows(
    raw: Seq<u8>, width: int, rect: Rect, m: nat, low: int, high: int, inside: bool)
    requires
        m <= rect.h,
        forall|x: int, y: int|
            rect.x <= x < rect.x + rect.w && rect.y <= y < rect.y + rect.h
                ==> in_band(#[trigger] color_at(raw, width, x, y), low, high) == inside,
    ensures
        rect_band_count(raw, width, rect, m, low, high)
            == if inside { m * rect.w } else { 0 },
    decreases m,
{
    if m > 0 {
        lemma_uniform_band_rows(raw, width, rect, (m - 1) as nat, low, high, inside);
        lemma_uniform_band_row(raw, width, rect, rect.y + m - 1, rect.w as nat, low, high, inside);
        if inside {
            assert(((m - 1) as nat) * rect.w + rect.w == m * rect.w) by (nonlinear_arith)
            requires m >= 1;
        }
    }
}

proof fn lemma_uniform_band_row(
    raw: Seq<u8>, width: int, rect: Rect, y: int, n: nat, low: int, high: int, inside: bool)
    requires
        n <= rect.w,
        rect.y <= y < rect.y + rect.h,
        forall|x: int, yy: int|
            rect.x <= x < rect.x + rect.w && rect.y <= yy < rect.y + rect.h
                ==> in_band(#[trigger] color_at(raw, width, x, yy), low, high) == inside,
    ensures
        row_band_count(raw, width, y, rect.x as int, n, low, high)
            == if inside { n as int } else { 0 },
    decreases n,
{
    if n > 0 {
        lemma_uniform_band_row(raw, width, rect, y, (n - 1) as nat, low, high, inside);
    }
}

} // verus!
