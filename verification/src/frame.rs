//! Captured frames and pixel grids.
//!
//! A [`Screenshot`] is an immutable 1920x1080 grid of RGB samples, tagged at
//! the type level with the UI context it was captured in, so that menu
//! predicates cannot be applied to an in-match frame or vice versa.
//! A [`GrayFrame`] is a single-channel image of arbitrary (small) size, used
//! by the glyph matcher and the badge correlator. A [`Rect`] is a rectangular
//! view into a frame; regions are always checked against the fixed screen
//! bounds.

use vstd::prelude::*;
use core::marker::PhantomData;
use crate::layout::{SCREEN_WIDTH, SCREEN_HEIGHT};

verus! {

/// The UI context a frame was captured in. Implemented only by the two
/// context markers; predicates are defined on `Screenshot<ReplaysMenu>` or
/// `Screenshot<InReplay>`, which makes a context mix-up a type error.
pub trait OWContext {}

/// Context marker: the client is showing the replay-list menu.
pub struct ReplaysMenu;

impl OWContext for ReplaysMenu {}

/// Context marker: the client is inside replay playback.
pub struct InReplay;

impl OWContext for InReplay {}

/// One RGB sample.
#[derive(Clone, Copy, Debug, PartialEq, Eq, Structural)]
pub struct Color {
    /// Red channel.
    pub r: u8,
    /// Green channel.
    pub g: u8,
    /// Blue channel.
    pub b: u8,
}

/// A rectangular view into a frame: offset plus size, in pixels.
#[derive(Clone, Copy, Debug, PartialEq, Eq, Structural)]
pub struct Rect {
    /// Left edge.
    pub x: u32,
    /// Top edge.
    pub y: u32,
    /// Width in pixels.
    pub w: u32,
    /// Height in pixels.
    pub h: u32,
}

impl Rect {
    /// The rectangle lies within a `width` x `height` pixel grid.
    pub open spec fn within(self, width: int, height: int) -> bool {
        &&& self.x + self.w <= width
        &&& self.y + self.h <= height
    }

    /// Number of pixels covered.
    pub open spec fn area(self) -> int {
        self.w * self.h
    }
}

/// The RGB sample of a row-major 3-bytes-per-pixel buffer at `(x, y)`.
pub open spec fn color_at(raw: Seq<u8>, width: int, x: int, y: int) -> Color {
    Color {
        r: raw[3 * (y * width + x)],
        g: raw[3 * (y * width + x) + 1],
        b: raw[3 * (y * width + x) + 2],
    }
}

/// Integer brightness of a sample: the usual luma weighting, scaled by 10000
/// and truncated.
pub open spec fn luma(c: Color) -> int {
    (2126 * c.r + 7152 * c.g + 722 * c.b) / 10000
}

/// An immutable captured frame at the fixed capture resolution, tagged with
/// the context `C` it was taken in.
pub struct Screenshot<C: OWContext> {
    data: Vec<u8>,
    marker: PhantomData<C>,
}

impl<C: OWContext> Screenshot<C> {
    /// The raw row-major RGB bytes of the frame.
    pub closed spec fn raw(&self) -> Seq<u8> {
        self.data@
    }

    /// The frame holds exactly one RGB triple per pixel of a 1920x1080 grid.
    pub open spec fn wf(&self) -> bool {
        self.raw().len() == 3 * (SCREEN_WIDTH as int) * (SCREEN_HEIGHT as int)
    }

    /// The sample at `(x, y)`.
    pub open spec fn spec_color_at(&self, x: int, y: int) -> Color {
        color_at(self.raw(), SCREEN_WIDTH as int, x, y)
    }

    /// Builds a frame directly from row-major RGB bytes; `None` unless the
    /// buffer holds exactly a 1920x1080 grid.
    pub fn from_rgb_bytes(data: Vec<u8>) -> (r: Option<Screenshot<C>>)
        ensures
            r is Some <==> data@.len() == 3 * (SCREEN_WIDTH as int) * (SCREEN_HEIGHT as int),
            r matches Some(f) ==> f.raw() == data@ && f.wf(),
    {
        if data.len() == 3 * (SCREEN_WIDTH as usize) * (SCREEN_HEIGHT as usize) {
            Some(Screenshot { data, marker: PhantomData })
        } else {
            None
        }
    }

    /// The sample at `(x, y)`.
    pub fn color_at(&self, x: u32, y: u32) -> (c: Color)
        requires
            self.wf(),
            x < SCREEN_WIDTH,
            y < SCREEN_HEIGHT,
        ensures
            c == self.spec_color_at(x as int, y as int),
    {
        proof {
            assert(y * (SCREEN_WIDTH as int) <= 1079 * 1920) by (nonlinear_arith)
                requires y < 1080 && SCREEN_WIDTH == 1920;
        }
        let idx: usize = 3 * ((y as usize) * (SCREEN_WIDTH as usize) + (x as usize));
        Color { r: self.data[idx], g: self.data[idx + 1], b: self.data[idx + 2] }
    }
}

/// A single-channel (grayscale) image: one byte per pixel, row-major.
pub struct GrayFrame {
    width: u32,
    height: u32,
    data: Vec<u8>,
}

/// The gray sample of a row-major single-byte-per-pixel buffer at `(x, y)`.
pub open spec fn gray_at(raw: Seq<u8>, width: int, x: int, y: int) -> u8 {
    raw[y * width + x]
}

impl GrayFrame {
    /// Width in pixels.
    pub closed spec fn spec_width(&self) -> u32 {
        self.width
    }

    /// Height in pixels.
    pub closed spec fn spec_height(&self) -> u32 {
        self.height
    }

    /// The raw row-major bytes.
    pub closed spec fn raw(&self) -> Seq<u8> {
        self.data@
    }

    /// One byte per pixel.
    pub open spec fn wf(&self) -> bool {
        self.raw().len() == self.spec_width() * self.spec_height()
    }

    /// The sample at `(x, y)`.
    pub open spec fn at(&self, x: int, y: int) -> u8 {
        gray_at(self.raw(), self.spec_width() as int, x, y)
    }

    /// Builds a gray image from row-major bytes; `None` unless the buffer
    /// holds exactly `width * height` samples.
    pub fn from_bytes(width: u32, height: u32, data: Vec<u8>) -> (r: Option<GrayFrame>)
        ensures
            r is Some <==> data@.len() == (width as int) * (height as int),
            r matches Some(g) ==> {
                &&& g.raw() == data@
                &&& g.spec_width() == width
                &&& g.spec_height() == height
                &&& g.wf()
            },
    {
        proof {
            assert((width as int) * (height as int) <= 0xFFFF_FFFFu64 * 0xFFFF_FFFFu64)
                by (nonlinear_arith)
                requires width <= 0xFFFF_FFFFu64 && height <= 0xFFFF_FFFFu64;
        }
        let len64: u64 = (width as u64) * (height as u64);
        if (data.len() as u64) == len64 {
            Some(GrayFrame { width, height, data })
        } else {
            None
        }
    }

    /// Builds a gray image from row-major bytes whose length is known to
    /// match.
    pub fn from_bytes_exact(width: u32, height: u32, data: Vec<u8>) -> (r: GrayFrame)
        requires
            data@.len() == (width as int) * (height as int),
        ensures
            r.raw() == data@,
            r.spec_width() == width,
            r.spec_height() == height,
            r.wf(),
    {
        GrayFrame { width, height, data }
    }

    /// Width in pixels.
    pub fn width(&self) -> (r: u32)
        ensures
            r == self.spec_width(),
    {
        self.width
    }

    /// Height in pixels.
    pub fn height(&self) -> (r: u32)
        ensures
            r == self.spec_height(),
    {
        self.height
    }

    /// The sample at `(x, y)`.
    pub fn get(&self, x: u32, y: u32) -> (v: u8)
        requires
            self.wf(),
            x < self.spec_width(),
            y < self.spec_height(),
        ensures
            v == self.at(x as int, y as int),
    {
        let n: usize = self.data.len();
        proof {
            lemma_grid_index(self.spec_width() as int, self.spec_height() as int, x as int, y as int);
        }
        let idx: usize = (y as usize) * (self.width as usize) + (x as usize);
        self.data[idx]
    }
}

/// The single-channel, brightness-inverted samples of a frame region, in
/// row-major order.
pub open spec fn spec_gray_invert(raw: Seq<u8>, rect: Rect) -> Seq<u8> {
    Seq::new((rect.w * rect.h) as nat, |i: int|
        (255 - luma(color_at(raw, SCREEN_WIDTH as int,
            rect.x + (i % (rect.w as int)), rect.y + (i / (rect.w as int))))) as u8)
}

impl<C: OWContext> Screenshot<C> {
    /// Cuts the region out of the frame as a single-channel image, with the
    /// brightness inverted, the preprocessing the glyph matcher expects for
    /// dark-on-light text.
    pub fn gray_invert_region(&self, rect: Rect) -> (g: GrayFrame)
        requires
            self.wf(),
            rect.within(SCREEN_WIDTH as int, SCREEN_HEIGHT as int),
        ensures
            g.spec_width() == rect.w,
            g.spec_height() == rect.h,
            g.wf(),
            g.raw() == spec_gray_invert(self.raw(), rect),
            forall|x: int, y: int|
                0 <= x < rect.w && 0 <= y < rect.h
                    ==> g.at(x, y) == 255 - luma(#[trigger] self.spec_color_at(rect.x + x, rect.y + y)),
    {
        let mut data: Vec<u8> = Vec::new();
        let mut j: u32 = 0;
        while j < rect.h
            invariant
                self.wf(),
                rect.within(SCREEN_WIDTH as int, SCREEN_HEIGHT as int),
                j <= rect.h,
                data@.len() == (j as int) * (rect.w as int),
                forall|x: int, y: int|
                    0 <= x < rect.w && 0 <= y < j
                        ==> data@[y * (rect.w as int) + x]
                            == 255 - luma(#[trigger] self.spec_color_at(rect.x + x, rect.y + y)),
            decreases rect.h - j,
        {
            let mut i: u32 = 0;
            while i < rect.w
                invariant
                    self.wf(),
                    rect.within(SCREEN_WIDTH as int, SCREEN_HEIGHT as int),
                    j < rect.h,
                    i <= rect.w,
                    data@.len() == (j as int) * (rect.w as int) + i,
                    forall|x: int, y: int|
                        0 <= x < rect.w && 0 <= y < j
                            ==> data@[y * (rect.w as int) + x]
                                == 255 - luma(#[trigger] self.spec_color_at(rect.x + x, rect.y + y)),
                    forall|x: int|
                        0 <= x < i
                            ==> data@[(j as int) * (rect.w as int) + x]
                                == 255 - luma(#[trigger] self.spec_color_at(rect.x + x, rect.y + (j as int))),
                decreases rect.w - i,
            {
                proof {
                    assert forall|x: int, y: int| 0 <= x < rect.w && 0 <= y < j
                        implies #[trigger] (y * (rect.w as int) + x) < (j as int) * (rect.w as int) by {
                        lemma_grid_index(rect.w as int, j as int, x, y);
                        assert((rect.w as int) * (j as int) == (j as int) * (rect.w as int))
                            by (nonlinear_arith);
                    };
                }
                let c = self.color_at(rect.x + i, rect.y + j);
                let bright: u32 =
                    (2126 * (c.r as u32) + 7152 * (c.g as u32) + 722 * (c.b as u32)) / 10000;
                data.push(255 - (bright as u8));
                i = i + 1;
            }
            j = j + 1;
            proof {
                assert((j - 1) * (rect.w as int) + (rect.w as int) == j * (rect.w as int))
                    by (nonlinear_arith);
            }
        }
        proof {
            assert((rect.h as int) * (rect.w as int) == (rect.w as int) * (rect.h as int))
                by (nonlinear_arith);
            assert forall|x: int, y: int| 0 <= x < rect.w && 0 <= y < rect.h
                implies #[trigger] (y * (rect.w as int) + x) < (rect.h as int) * (rect.w as int) by {
                lemma_grid_index(rect.w as int, rect.h as int, x, y);
                assert((rect.w as int) * (rect.h as int) == (rect.h as int) * (rect.w as int))
                    by (nonlinear_arith);
            };
            assert forall|i: int| 0 <= i < data@.len()
                implies data@[i] == spec_gray_invert(self.raw(), rect)[i] by {
                let w = rect.w as int;
                assert(i < (rect.h as int) * w);
                assert(w > 0) by (nonlinear_arith)
                    requires 0 <= i && i < (rect.h as int) * w && w >= 0;
                let x = i % w;
                let y = i / w;
                vstd::arithmetic::div_mod::lemma_fundamental_div_mod(i, w);
                assert(0 <= x < w) by (nonlinear_arith)
                    requires x == i % w && w > 0;
                assert(0 <= y < rect.h) by (nonlinear_arith)
                    requires
                        i == w * y + x && 0 <= x < w && 0 <= i,
                        i < (rect.h as int) * w && w > 0;
                assert(y * w + x == i) by (nonlinear_arith)
                    requires i == w * y + x;
                assert(data@[y * w + x]
                    == 255 - luma(self.spec_color_at(rect.x + x, rect.y + y)));
            };
            assert(data@ =~= spec_gray_invert(self.raw(), rect));
        }
        GrayFrame { width: rect.w, height: rect.h, data }
    }
}

/// In a `width` x `height` grid, the row-major index of an in-bounds `(x, y)`
/// is in bounds.
pub proof fn lemma_grid_index(width: int, height: int, x: int, y: int)
    requires
        0 <= x < width,
        0 <= y < height,
    ensures
        0 <= y * width + x,
        y * width + x < width * height,
    decreases height,
{
    if y == height - 1 {
        assert(y * width + x < width * height) by (nonlinear_arith)
            requires 0 <= x < width && y == height - 1 && 0 <= y;
        assert(0 <= y * width + x) by (nonlinear_arith)
            requires 0 <= x && 0 <= y && 0 < width;
    } else {
        lemma_grid_index(width, height - 1, x, y);
        assert(width * (height - 1) <= width * height) by (nonlinear_arith)
            requires 0 < width && 0 < height;
    }
}

} // verus!
