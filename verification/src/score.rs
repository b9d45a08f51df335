//! Exact normalized cross-correlation scores.
//!
//! The badge correlator and the glyph matcher both rate how well a template
//! matches a window of a gray image by normalized cross-correlation:
//! `cross / sqrt(self_energy * template_energy)`. Instead of a rounded
//! quotient, a [`Score`] keeps the integer numerator and the squared
//! denominator, so score comparisons and threshold tests are exact: for
//! non-negative numerators, `a/sqrt(d_a) <= b/sqrt(d_b)` exactly when
//! `a*a*d_b <= b*b*d_a`.

use vstd::prelude::*;
use crate::frame::GrayFrame;

verus! {

/// Largest template area (in pixels) the correlator accepts; keeps every
/// score product inside 128-bit arithmetic.
pub const MAX_TEMPLATE_AREA: u64 = 16384;

/// Largest possible cross or energy sum: 255 * 255 per pixel over a maximal
/// template window.
pub const MAX_ENERGY: u64 = 65025 * 16384;

/// Cross sum over the first `n` pixels of template row `j` placed at
/// `(x, y)`: image sample times template sample.
pub open spec fn row_cross(
    f: Seq<u8>, fw: int, t: Seq<u8>, tw: int, x: int, y: int, j: int, n: nat) -> int
    decreases n,
{
    if n == 0 {
        0
    } else {
        row_cross(f, fw, t, tw, x, y, j, (n - 1) as nat)
            + f[(y + j) * fw + x + n - 1] * t[j * tw + n - 1]
    }
}

/// Cross sum over the first `m` rows of the template placed at `(x, y)`.
pub open spec fn win_cross(
    f: Seq<u8>, fw: int, t: Seq<u8>, tw: int, x: int, y: int, m: nat) -> int
    decreases m,
{
    if m == 0 {
        0
    } else {
        win_cross(f, fw, t, tw, x, y, (m - 1) as nat)
            + row_cross(f, fw, t, tw, x, y, m - 1, tw as nat)
    }
}

/// Energy of the image window under the first `n` pixels of template row
/// `j`: the square of each image sample.
pub open spec fn row_energy(f: Seq<u8>, fw: int, x: int, y: int, j: int, n: nat) -> int
    decreases n,
{
    if n == 0 {
        0
    } else {
        row_energy(f, fw, x, y, j, (n - 1) as nat)
            + f[(y + j) * fw + x + n - 1] * f[(y + j) * fw + x + n - 1]
    }
}

/// Energy of the image window under the first `m` template rows of width
/// `tw` placed at `(x, y)`.
pub open spec fn win_energy(f: Seq<u8>, fw: int, x: int, y: int, tw: int, m: nat) -> int
    decreases m,
{
    if m == 0 {
        0
    } else {
        win_energy(f, fw, x, y, tw, (m - 1) as nat) + row_energy(f, fw, x, y, m - 1, tw as nat)
    }
}

/// Energy of the first `n` pixels of template row `j`.
pub open spec fn tpl_row_energy(t: Seq<u8>, tw: int, j: int, n: nat) -> int
    decreases n,
{
    if n == 0 {
        0
    } else {
        tpl_row_energy(t, tw, j, (n - 1) as nat) + t[j * tw + n - 1] * t[j * tw + n - 1]
    }
}

/// Energy of the first `m` rows of the template.
pub open spec fn tpl_energy(t: Seq<u8>, tw: int, m: nat) -> int
    decreases m,
{
    if m == 0 {
        0
    } else {
        tpl_energy(t, tw, (m - 1) as nat) + tpl_row_energy(t, tw, m - 1, tw as nat)
    }
}

/// A normalized cross-correlation value, kept exact as
/// `cross / sqrt(denom)` with the denominator squared.
#[derive(Clone, Copy, Debug, PartialEq, Eq, Structural)]
pub struct Score {
    /// The cross sum of image and template over the window.
    pub cross: u64,
    /// The product of window energy and template energy (or the template
    /// energy alone for an all-black window, whose cross sum is zero).
    pub denom: u64,
}

impl Score {
    /// The bounds a maximal template window can produce.
    pub open spec fn wf(self) -> bool {
        &&& self.cross <= MAX_ENERGY
        &&& 1 <= self.denom <= (MAX_ENERGY as int) * (MAX_ENERGY as int)
    }

    /// This score is at most `other`, by cross-multiplied comparison.
    pub open spec fn spec_le(self, other: Score) -> bool {
        self.cross * self.cross * other.denom <= other.cross * other.cross * self.denom
    }

    /// This score is strictly below `other`.
    pub open spec fn spec_lt(self, other: Score) -> bool {
        self.cross * self.cross * other.denom < other.cross * other.cross * self.denom
    }

    /// This score is at most `other`.
    pub fn le(&self, other: &Score) -> (r: bool)
        requires
            self.wf(),
            other.wf(),
        ensures
            r == self.spec_le(*other),
    {
        proof {
            lemma_score_product_bounded(*self, *other);
            lemma_score_product_bounded(*other, *self);
        }
        let a: u128 = (self.cross as u128) * (self.cross as u128) * (other.denom as u128);
        let b: u128 = (other.cross as u128) * (other.cross as u128) * (self.denom as u128);
        a <= b
    }

    /// This score is strictly below `other`.
    pub fn lt(&self, other: &Score) -> (r: bool)
        requires
            self.wf(),
            other.wf(),
        ensures
            r == self.spec_lt(*other),
    {
        proof {
            lemma_score_product_bounded(*self, *other);
            lemma_score_product_bounded(*other, *self);
        }
        let a: u128 = (self.cross as u128) * (self.cross as u128) * (other.denom as u128);
        let b: u128 = (other.cross as u128) * (other.cross as u128) * (self.denom as u128);
        a < b
    }

    /// The score exceeds the glyph acceptance threshold of 19/20 (0.95):
    /// exactly when `20 * cross > 19 * sqrt(denom)`, i.e.
    /// `400 * cross^2 > 361 * denom`.
    pub open spec fn spec_passes_threshold(self) -> bool {
        400 * self.cross * self.cross > 361 * self.denom
    }

    /// The score exceeds the glyph acceptance threshold.
    pub fn passes_threshold(&self) -> (r: bool)
        requires
            self.wf(),
        ensures
            r == self.spec_passes_threshold(),
    {
        proof {
            assert((self.cross as int) * (self.cross as int)
                <= (MAX_ENERGY as int) * (MAX_ENERGY as int)) by (nonlinear_arith)
                requires self.cross <= MAX_ENERGY;
            assert(400 * ((self.cross as int) * (self.cross as int))
                == 400 * (self.cross as int) * (self.cross as int)) by (nonlinear_arith);
        }
        let c2: u128 = (self.cross as u128) * (self.cross as u128);
        400u128 * c2 > 361u128 * (self.denom as u128)
    }
}

/// The three-way product in a score comparison stays far inside `u128`.
proof fn lemma_score_product_bounded(a: Score, b: Score)
    requires
        a.wf(),
        b.wf(),
    ensures
        0 <= a.cross * a.cross <= (MAX_ENERGY as int) * (MAX_ENERGY as int),
        0 <= a.cross * a.cross * b.denom
            <= (MAX_ENERGY as int) * (MAX_ENERGY as int) * (MAX_ENERGY as int) * (MAX_ENERGY as int),
{
    assert(0 <= a.cross * a.cross <= (MAX_ENERGY as int) * (MAX_ENERGY as int)
        && 0 <= a.cross * a.cross * b.denom
            <= (MAX_ENERGY as int) * (MAX_ENERGY as int) * (MAX_ENERGY as int) * (MAX_ENERGY as int))
        by (nonlinear_arith)
        requires
            a.cross <= MAX_ENERGY,
            1 <= b.denom <= (MAX_ENERGY as int) * (MAX_ENERGY as int);
}

/// Score comparison is transitive (denominators are positive).
pub proof fn lemma_score_le_trans(a: Score, b: Score, c: Score)
    requires
        a.wf(),
        b.wf(),
        c.wf(),
        a.spec_le(b),
        b.spec_le(c),
    ensures
        a.spec_le(c),
{
    lemma_rational_sq_le_trans(
        a.cross as int, a.denom as int, b.cross as int, b.denom as int,
        c.cross as int, c.denom as int);
}

proof fn lemma_rational_sq_le_trans(ac: int, ad: int, bc: int, bd: int, cc: int, cd: int)
    requires
        ad >= 1,
        bd >= 1,
        cd >= 1,
        ac * ac * bd <= bc * bc * ad,
        bc * bc * cd <= cc * cc * bd,
    ensures
        ac * ac * cd <= cc * cc * ad,
{
    assert(ac * ac * bd * cd <= bc * bc * ad * cd) by (nonlinear_arith)
        requires ac * ac * bd <= bc * bc * ad && cd >= 1;
    assert(bc * bc * cd * ad <= cc * cc * bd * ad) by (nonlinear_arith)
        requires bc * bc * cd <= cc * cc * bd && ad >= 1;
    assert(bc * bc * ad * cd == bc * bc * cd * ad) by (nonlinear_arith);
    assert(ac * ac * bd * cd == ac * ac * cd * bd) by (nonlinear_arith);
    assert(cc * cc * bd * ad == cc * cc * ad * bd) by (nonlinear_arith);
    assert(ac * ac * cd * bd <= cc * cc * ad * bd);
    assert(ac * ac * cd <= cc * cc * ad) by (nonlinear_arith)
        requires ac * ac * cd * bd <= cc * cc * ad * bd && bd >= 1;
}

/// A template with positive energy has positive width and height.
pub proof fn lemma_positive_energy_dims(t: Seq<u8>, tw: int, m: nat)
    requires
        tw >= 0,
        tpl_energy(t, tw, m) > 0,
    ensures
        m >= 1,
        tw >= 1,
    decreases m,
{
    if m >= 1 {
        if tpl_energy(t, tw, (m - 1) as nat) > 0 {
            lemma_positive_energy_dims(t, tw, (m - 1) as nat);
        } else {
            assert(tpl_energy(t, tw, m)
                == tpl_energy(t, tw, (m - 1) as nat) + tpl_row_energy(t, tw, m - 1, tw as nat));
            lemma_tpl_energy_nonneg(t, tw, (m - 1) as nat);
            assert(tpl_row_energy(t, tw, m - 1, tw as nat) > 0);
            lemma_positive_row_energy_width(t, tw, m - 1, tw as nat);
            assert(tw as nat >= 1);
        }
    }
}

/// A template with a nonzero sample has positive energy.
pub proof fn lemma_energy_positive_at_pixel(t: Seq<u8>, tw: int, th: nat, x: int, y: int)
    requires
        0 <= x < tw,
        0 <= y < th,
        t[y * tw + x] > 0,
    ensures
        tpl_energy(t, tw, th) > 0,
    decreases th,
{
    if y == th - 1 {
        lemma_tpl_energy_nonneg(t, tw, (th - 1) as nat);
        lemma_row_energy_positive_at_pixel(t, tw, th - 1, tw as nat, x);
    } else {
        lemma_energy_positive_at_pixel(t, tw, (th - 1) as nat, x, y);
        lemma_tpl_row_energy_nonneg(t, tw, th - 1, tw as nat);
    }
}

proof fn lemma_row_energy_positive_at_pixel(t: Seq<u8>, tw: int, j: int, n: nat, x: int)
    requires
        0 <= x < n,
        x < tw,
        t[j * tw + x] > 0,
    ensures
        tpl_row_energy(t, tw, j, n) > 0,
    decreases n,
{
    if x == n - 1 {
        lemma_tpl_row_energy_nonneg(t, tw, j, (n - 1) as nat);
        let a = t[j * tw + n - 1];
        assert(a * a > 0) by (nonlinear_arith)
            requires a > 0;
    } else {
        lemma_row_energy_positive_at_pixel(t, tw, j, (n - 1) as nat, x);
        let a = t[j * tw + n - 1];
        assert(a * a >= 0) by (nonlinear_arith);
    }
}

/// A template energy is never negative, whatever the width.
proof fn lemma_tpl_energy_nonneg(t: Seq<u8>, tw: int, m: nat)
    ensures
        tpl_energy(t, tw, m) >= 0,
    decreases m,
{
    if m >= 1 {
        lemma_tpl_energy_nonneg(t, tw, (m - 1) as nat);
        lemma_tpl_row_energy_nonneg(t, tw, m - 1, tw as nat);
    }
}

proof fn lemma_tpl_row_energy_nonneg(t: Seq<u8>, tw: int, j: int, n: nat)
    ensures
        tpl_row_energy(t, tw, j, n) >= 0,
    decreases n,
{
    if n >= 1 {
        lemma_tpl_row_energy_nonneg(t, tw, j, (n - 1) as nat);
        let a = t[j * tw + n - 1];
        assert(a * a >= 0) by (nonlinear_arith);
    }
}

proof fn lemma_positive_row_energy_width(t: Seq<u8>, tw: int, j: int, n: nat)
    requires
        tpl_row_energy(t, tw, j, n) > 0,
    ensures
        n >= 1,
    decreases n,
{
}

/// Total energy of a template image: the sum of the squares of its samples.
pub fn template_energy(tpl: &GrayFrame) -> (r: u64)
    requires
        tpl.wf(),
        (tpl.spec_width() as int) * (tpl.spec_height() as int) <= MAX_TEMPLATE_AREA,
    ensures
        r == tpl_energy(tpl.raw(), tpl.spec_width() as int, tpl.spec_height() as nat),
        r <= MAX_ENERGY,
{
    let tw = tpl.width();
    let th = tpl.height();
    let mut sum: u64 = 0;
    let mut j: u32 = 0;
    while j < th
        invariant
            tpl.wf(),
            tw == tpl.spec_width(),
            th == tpl.spec_height(),
            (tw as int) * (th as int) <= MAX_TEMPLATE_AREA,
            j <= th,
            sum == tpl_energy(tpl.raw(), tw as int, j as nat),
            sum <= 65025 * (j as int) * (tw as int),
        decreases th - j,
    {
        let mut i: u32 = 0;
        let mut row: u64 = 0;
        while i < tw
            invariant
                tpl.wf(),
                tw == tpl.spec_width(),
                th == tpl.spec_height(),
                j < th,
                i <= tw,
                row == tpl_row_energy(tpl.raw(), tw as int, j as int, i as nat),
                row <= 65025 * (i as int),
            decreases tw - i,
        {
            let v = tpl.get(i, j);
            proof {
                assert((v as int) * (v as int) <= 65025) by (nonlinear_arith)
                    requires v <= 255;
            }
            row = row + (v as u64) * (v as u64);
            i = i + 1;
        }
        proof {
            assert(65025 * (j as int) * (tw as int) + 65025 * (tw as int)
                == 65025 * ((j + 1) as int) * (tw as int)) by (nonlinear_arith);
            assert(65025 * ((j + 1) as int) * (tw as int) <= 65025 * ((tw as int) * (th as int)))
                by (nonlinear_arith)
                requires j + 1 <= th;
        }
        sum = sum + row;
        j = j + 1;
    }
    proof {
        assert(65025 * (th as int) * (tw as int) <= 65025 * ((tw as int) * (th as int)))
            by (nonlinear_arith);
    }
    sum
}

/// The normalized cross-correlation of the template against the window of
/// `f` at `(x, y)`, as an exact [`Score`]. An all-black window (zero
/// energy), whose cross sum is necessarily zero, scores zero over the
/// template energy alone.
pub open spec fn spec_window_score(
    f: Seq<u8>, fw: int, t: Seq<u8>, tw: int, th: nat, x: int, y: int) -> Score
{
    let c = win_cross(f, fw, t, tw, x, y, th);
    let si = win_energy(f, fw, x, y, tw, th);
    let st = tpl_energy(t, tw, th);
    if si == 0 {
        Score { cross: 0, denom: st as u64 }
    } else {
        Score { cross: c as u64, denom: (si * st) as u64 }
    }
}

/// Correlation score of `tpl` against the window of `img` at `(x, y)`.
/// `energy` must be the template's total energy, and positive.
pub fn window_score(img: &GrayFrame, tpl: &GrayFrame, x: u32, y: u32, energy: u64)
    -> (r: Score)
    requires
        img.wf(),
        tpl.wf(),
        x + tpl.spec_width() <= img.spec_width(),
        y + tpl.spec_height() <= img.spec_height(),
        (tpl.spec_width() as int) * (tpl.spec_height() as int) <= MAX_TEMPLATE_AREA,
        energy == tpl_energy(tpl.raw(), tpl.spec_width() as int, tpl.spec_height() as nat),
        energy >= 1,
    ensures
        r == spec_window_score(
            img.raw(), img.spec_width() as int, tpl.raw(), tpl.spec_width() as int,
            tpl.spec_height() as nat, x as int, y as int),
        r.wf(),
{
    let tw = tpl.width();
    let th = tpl.height();
    let mut cross: u64 = 0;
    let mut self_energy: u64 = 0;
    let mut j: u32 = 0;
    while j < th
        invariant
            img.wf(),
            tpl.wf(),
            x + tw <= img.spec_width(),
            y + th <= img.spec_height(),
            tw == tpl.spec_width(),
            th == tpl.spec_height(),
            (tw as int) * (th as int) <= MAX_TEMPLATE_AREA,
            j <= th,
            cross == win_cross(
                img.raw(), img.spec_width() as int, tpl.raw(), tw as int, x as int, y as int,
                j as nat),
            self_energy == win_energy(
                img.raw(), img.spec_width() as int, x as int, y as int, tw as int, j as nat),
            cross <= 65025 * (j as int) * (tw as int),
            self_energy <= 65025 * (j as int) * (tw as int),
        decreases th - j,
    {
        let mut i: u32 = 0;
        let mut row_cross_sum: u64 = 0;
        let mut row_energy_sum: u64 = 0;
        while i < tw
            invariant
                img.wf(),
                tpl.wf(),
                x + tw <= img.spec_width(),
                y + th <= img.spec_height(),
                tw == tpl.spec_width(),
                th == tpl.spec_height(),
                j < th,
                i <= tw,
                row_cross_sum == row_cross(
                    img.raw(), img.spec_width() as int, tpl.raw(), tw as int, x as int, y as int,
                    j as int, i as nat),
                row_energy_sum == row_energy(
                    img.raw(), img.spec_width() as int, x as int, y as int, j as int, i as nat),
                row_cross_sum <= 65025 * (i as int),
                row_energy_sum <= 65025 * (i as int),
            decreases tw - i,
        {
            let fv = img.get(x + i, y + j);
            let tv = tpl.get(i, j);
            proof {
                assert((fv as int) * (tv as int) <= 65025 && (fv as int) * (fv as int) <= 65025)
                    by (nonlinear_arith)
                    requires fv <= 255 && tv <= 255;
            }
            row_cross_sum = row_cross_sum + (fv as u64) * (tv as u64);
            row_energy_sum = row_energy_sum + (fv as u64) * (fv as u64);
            i = i + 1;
        }
        proof {
            assert(65025 * (j as int) * (tw as int) + 65025 * (tw as int)
                == 65025 * ((j + 1) as int) * (tw as int)) by (nonlinear_arith);
            assert(65025 * ((j + 1) as int) * (tw as int) <= 65025 * ((tw as int) * (th as int)))
                by (nonlinear_arith)
                requires j + 1 <= th;
        }
        cross = cross + row_cross_sum;
        self_energy = self_energy + row_energy_sum;
        j = j + 1;
    }
    proof {
        assert((tw as int) * (th as int) <= 16384);
        assert(65025 * (th as int) * (tw as int) <= 65025 * 16384) by (nonlinear_arith)
            requires (tw as int) * (th as int) <= 16384 && tw >= 0 && th >= 0;
        lemma_tpl_energy_bound(tpl.raw(), tw as int, th as nat);
        assert(self_energy <= MAX_ENERGY && energy <= MAX_ENERGY && cross <= MAX_ENERGY);
        assert((self_energy as int) * (energy as int) <= (MAX_ENERGY as int) * (MAX_ENERGY as int))
            by (nonlinear_arith)
            requires self_energy <= MAX_ENERGY && energy <= MAX_ENERGY;
        assert(self_energy >= 1 ==> (self_energy as int) * (energy as int) >= 1)
            by (nonlinear_arith)
            requires energy >= 1;
    }
    if self_energy == 0 {
        Score { cross: 0, denom: energy }
    } else {
        Score { cross, denom: self_energy * energy }
    }
}

/// A template correlated against itself at the origin scores exactly one:
/// its cross sum squared equals its denominator.
pub proof fn lemma_self_match_is_perfect(t: Seq<u8>, tw: int, th: nat)
    requires
        tw >= 0,
        tw * th <= MAX_TEMPLATE_AREA,
        tpl_energy(t, tw, th) > 0,
    ensures
        ({
            let s = spec_window_score(t, tw, t, tw, th, 0, 0);
            s.cross * s.cross == s.denom && s.spec_passes_threshold()
        }),
{
    lemma_self_sums_agree(t, tw, th);
    lemma_tpl_energy_bound(t, tw, th);
    let e = tpl_energy(t, tw, th);
    assert(65025 * th * tw <= 65025 * 16384) by (nonlinear_arith)
        requires tw >= 0 && th >= 0 && tw * (th as int) <= 16384;
    assert(e <= MAX_ENERGY);
    let s = spec_window_score(t, tw, t, tw, th, 0, 0);
    assert(0 <= e * e <= (MAX_ENERGY as int) * (MAX_ENERGY as int)) by (nonlinear_arith)
        requires 0 <= e <= MAX_ENERGY;
    assert(s.cross == e && s.denom == e * e);
    assert(400 * (e as int) * (e as int) > 361 * ((e * e) as int)) by (nonlinear_arith)
        requires e > 0;
}

proof fn lemma_self_sums_agree(t: Seq<u8>, tw: int, m: nat)
    ensures
        win_cross(t, tw, t, tw, 0, 0, m) == tpl_energy(t, tw, m),
        win_energy(t, tw, 0, 0, tw, m) == tpl_energy(t, tw, m),
        tpl_energy(t, tw, m) >= 0 ==> true,
    decreases m,
{
    if m > 0 {
        lemma_self_sums_agree(t, tw, (m - 1) as nat);
        lemma_self_row_sums_agree(t, tw, m - 1, tw as nat);
    }
}

proof fn lemma_self_row_sums_agree(t: Seq<u8>, tw: int, j: int, n: nat)
    ensures
        row_cross(t, tw, t, tw, 0, 0, j, n) == tpl_row_energy(t, tw, j, n),
        row_energy(t, tw, 0, 0, j, n) == tpl_row_energy(t, tw, j, n),
    decreases n,
{
    if n > 0 {
        lemma_self_row_sums_agree(t, tw, j, (n - 1) as nat);
    }
}

/// The highest correlation score of the reference badge anywhere in the
/// live image: `None` when the badge does not fit inside the image, is
/// larger than the correlator accepts, or carries no ink at all.
pub fn self_identification_score(live: &GrayFrame, badge: &GrayFrame) -> (r: Option<Score>)
    requires
        live.wf(),
        badge.wf(),
    ensures
        r is Some <==> {
            &&& badge.spec_width() <= live.spec_width()
            &&& badge.spec_height() <= live.spec_height()
            &&& (badge.spec_width() as int) * (badge.spec_height() as int) <= MAX_TEMPLATE_AREA
            &&& tpl_energy(badge.raw(), badge.spec_width() as int, badge.spec_height() as nat) > 0
        },
        r matches Some(s) ==> {
            &&& s.wf()
            &&& exists|x: int, y: int|
                0 <= x <= live.spec_width() - badge.spec_width()
                && 0 <= y <= live.spec_height() - badge.spec_height()
                && s == spec_window_score(
                    live.raw(), live.spec_width() as int, badge.raw(),
                    badge.spec_width() as int, badge.spec_height() as nat, x, y)
            &&& forall|x: int, y: int|
                0 <= x <= live.spec_width() - badge.spec_width()
                && 0 <= y <= live.spec_height() - badge.spec_height()
                ==> (#[trigger] spec_window_score(
                        live.raw(), live.spec_width() as int, badge.raw(),
                        badge.spec_width() as int, badge.spec_height() as nat, x, y)).spec_le(s)
        },
{
    let tw = badge.width();
    let th = badge.height();
    if tw > live.width() || th > live.height() {
        return None;
    }
    proof {
        assert((tw as int) * (th as int) <= 0xFFFF_FFFFu64 * 0xFFFF_FFFFu64) by (nonlinear_arith)
            requires tw <= 0xFFFF_FFFFu64 && th <= 0xFFFF_FFFFu64;
    }
    if (tw as u64) * (th as u64) > MAX_TEMPLATE_AREA {
        return None;
    }
    let energy = template_energy(badge);
    if energy == 0 {
        return None;
    }
    proof {
        lemma_positive_energy_dims(badge.raw(), tw as int, th as nat);
    }
    let xmax: u32 = live.width() - tw;
    let ymax: u32 = live.height() - th;
    let ghost fraw = live.raw();
    let ghost fw = live.spec_width() as int;
    let ghost traw = badge.raw();
    let mut best: Score = window_score(live, badge, 0, 0, energy);
    let ghost mut bx: int = 0;
    let ghost mut by: int = 0;
    let mut y: u32 = 0;
    while y <= ymax
        invariant
            live.wf(),
            badge.wf(),
            tw == badge.spec_width(),
            th == badge.spec_height(),
            tw >= 1,
            th >= 1,
            xmax == live.spec_width() - tw,
            ymax == live.spec_height() - th,
            (tw as int) * (th as int) <= MAX_TEMPLATE_AREA,
            energy == tpl_energy(traw, tw as int, th as nat),
            energy >= 1,
            fraw == live.raw(),
            fw == live.spec_width() as int,
            traw == badge.raw(),
            y <= ymax + 1,
            best.wf(),
            0 <= bx <= xmax && 0 <= by <= ymax,
            best == spec_window_score(fraw, fw, traw, tw as int, th as nat, bx, by),
            forall|xx: int, yy: int|
                0 <= xx <= xmax && 0 <= yy < y
                    ==> (#[trigger] spec_window_score(fraw, fw, traw, tw as int, th as nat, xx, yy))
                        .spec_le(best),
        decreases ymax - y + 1,
    {
        let mut x: u32 = 0;
        while x <= xmax
            invariant
                live.wf(),
                badge.wf(),
                tw == badge.spec_width(),
                th == badge.spec_height(),
                tw >= 1,
                th >= 1,
                xmax == live.spec_width() - tw,
                ymax == live.spec_height() - th,
                (tw as int) * (th as int) <= MAX_TEMPLATE_AREA,
                energy == tpl_energy(traw, tw as int, th as nat),
                energy >= 1,
                fraw == live.raw(),
                fw == live.spec_width() as int,
                traw == badge.raw(),
                y <= ymax,
                x <= xmax + 1,
                best.wf(),
                0 <= bx <= xmax && 0 <= by <= ymax,
                best == spec_window_score(fraw, fw, traw, tw as int, th as nat, bx, by),
                forall|xx: int, yy: int|
                    0 <= xx <= xmax && 0 <= yy < y
                        ==> (#[trigger] spec_window_score(fraw, fw, traw, tw as int, th as nat, xx, yy))
                            .spec_le(best),
                forall|xx: int|
                    0 <= xx < x
                        ==> (#[trigger] spec_window_score(fraw, fw, traw, tw as int, th as nat, xx, y as int))
                            .spec_le(best),
            decreases xmax - x + 1,
        {
            let s = window_score(live, badge, x, y, energy);
            if best.lt(&s) {
                proof {
                    assert forall|xx: int, yy: int|
                        0 <= xx <= xmax && 0 <= yy < y
                            implies (#[trigger] spec_window_score(
                                fraw, fw, traw, tw as int, th as nat, xx, yy)).spec_le(s) by {
                        let w = spec_window_score(fraw, fw, traw, tw as int, th as nat, xx, yy);
                        lemma_window_score_wf(fraw, fw, traw, tw as int, th as nat, xx, yy);
                        lemma_score_le_trans(w, best, s);
                    };
                    assert forall|xx: int|
                        0 <= xx < x
                            implies (#[trigger] spec_window_score(
                                fraw, fw, traw, tw as int, th as nat, xx, y as int)).spec_le(s) by {
                        let w = spec_window_score(fraw, fw, traw, tw as int, th as nat, xx, y as int);
                        lemma_window_score_wf(fraw, fw, traw, tw as int, th as nat, xx, y as int);
                        lemma_score_le_trans(w, best, s);
                    };
                }
                best = s;
                proof {
                    bx = x as int;
                    by = y as int;
                }
            }
            x = x + 1;
        }
        y = y + 1;
    }
    Some(best)
}

/// A row cross sum lies between 0 and `255 * 255` per pixel. Samples are
/// bytes, so the per-term bound needs no range condition.
proof fn lemma_row_cross_bound(
    f: Seq<u8>, fw: int, t: Seq<u8>, tw: int, x: int, y: int, j: int, n: nat)
    ensures
        0 <= row_cross(f, fw, t, tw, x, y, j, n) <= 65025 * n,
    decreases n,
{
    if n > 0 {
        lemma_row_cross_bound(f, fw, t, tw, x, y, j, (n - 1) as nat);
        let a = f[(y + j) * fw + x + n - 1];
        let b = t[j * tw + n - 1];
        assert(0 <= a * b <= 65025) by (nonlinear_arith)
            requires a <= 255 && b <= 255;
    }
}

/// A window cross sum lies between 0 and `255 * 255` per pixel.
proof fn lemma_win_cross_bound(
    f: Seq<u8>, fw: int, t: Seq<u8>, tw: int, x: int, y: int, m: nat)
    requires
        tw >= 0,
    ensures
        0 <= win_cross(f, fw, t, tw, x, y, m) <= 65025 * m * tw,
    decreases m,
{
    if m > 0 {
        lemma_win_cross_bound(f, fw, t, tw, x, y, (m - 1) as nat);
        lemma_row_cross_bound(f, fw, t, tw, x, y, m - 1, tw as nat);
        assert(65025 * ((m - 1) as nat) * tw + 65025 * tw == 65025 * m * tw) by (nonlinear_arith)
            requires m >= 1;
    }
}

/// A row energy lies between 0 and `255 * 255` per pixel.
proof fn lemma_row_energy_bound(f: Seq<u8>, fw: int, x: int, y: int, j: int, n: nat)
    ensures
        0 <= row_energy(f, fw, x, y, j, n) <= 65025 * n,
    decreases n,
{
    if n > 0 {
        lemma_row_energy_bound(f, fw, x, y, j, (n - 1) as nat);
        let a = f[(y + j) * fw + x + n - 1];
        assert(0 <= a * a <= 65025) by (nonlinear_arith)
            requires a <= 255;
    }
}

/// A window energy lies between 0 and `255 * 255` per pixel.
proof fn lemma_win_energy_bound(f: Seq<u8>, fw: int, x: int, y: int, tw: int, m: nat)
    requires
        tw >= 0,
    ensures
        0 <= win_energy(f, fw, x, y, tw, m) <= 65025 * m * tw,
    decreases m,
{
    if m > 0 {
        lemma_win_energy_bound(f, fw, x, y, tw, (m - 1) as nat);
        lemma_row_energy_bound(f, fw, x, y, m - 1, tw as nat);
        assert(65025 * ((m - 1) as nat) * tw + 65025 * tw == 65025 * m * tw) by (nonlinear_arith)
            requires m >= 1;
    }
}

/// A template row energy lies between 0 and `255 * 255` per pixel.
proof fn lemma_tpl_row_energy_bound(t: Seq<u8>, tw: int, j: int, n: nat)
    ensures
        0 <= tpl_row_energy(t, tw, j, n) <= 65025 * n,
    decreases n,
{
    if n > 0 {
        lemma_tpl_row_energy_bound(t, tw, j, (n - 1) as nat);
        let a = t[j * tw + n - 1];
        assert(0 <= a * a <= 65025) by (nonlinear_arith)
            requires a <= 255;
    }
}

/// A template energy lies between 0 and `255 * 255` per pixel.
pub proof fn lemma_tpl_energy_bound(t: Seq<u8>, tw: int, m: nat)
    requires
        tw >= 0,
    ensures
        0 <= tpl_energy(t, tw, m) <= 65025 * m * tw,
    decreases m,
{
    if m > 0 {
        lemma_tpl_energy_bound(t, tw, (m - 1) as nat);
        lemma_tpl_row_energy_bound(t, tw, m - 1, tw as nat);
        assert(65025 * ((m - 1) as nat) * tw + 65025 * tw == 65025 * m * tw) by (nonlinear_arith)
            requires m >= 1;
    }
}

/// Every window score of a template with positive energy and acceptable
/// area is well-formed, whatever the placement.
pub proof fn lemma_window_score_wf(
    f: Seq<u8>, fw: int, t: Seq<u8>, tw: int, th: nat, x: int, y: int)
    requires
        tw >= 0,
        tw * th <= MAX_TEMPLATE_AREA,
        tpl_energy(t, tw, th) >= 1,
    ensures
        spec_window_score(f, fw, t, tw, th, x, y).wf(),
{
    lemma_win_cross_bound(f, fw, t, tw, x, y, th);
    lemma_win_energy_bound(f, fw, x, y, tw, th);
    lemma_tpl_energy_bound(t, tw, th);
    let c = win_cross(f, fw, t, tw, x, y, th);
    let si = win_energy(f, fw, x, y, tw, th);
    let st = tpl_energy(t, tw, th);
    assert(65025 * th * tw <= 65025 * MAX_TEMPLATE_AREA) by (nonlinear_arith)
        requires tw >= 0 && tw * (th as int) <= MAX_TEMPLATE_AREA && th >= 0;
    assert(c <= MAX_ENERGY && si <= MAX_ENERGY && st <= MAX_ENERGY);
    assert(0 <= si * st <= (MAX_ENERGY as int) * (MAX_ENERGY as int)) by (nonlinear_arith)
        requires 0 <= si <= MAX_ENERGY && 0 <= st <= MAX_ENERGY;
    if si != 0 {
        assert(si * st >= 1) by (nonlinear_arith)
            requires si >= 1 && st >= 1;
    }
}


/// Cross-term bound behind Cauchy-Schwarz: when each cross sum is bounded
/// by its energies, so is twice the product of two cross sums.
proof fn lemma_cs_cross_term(c1: int, a1: int, b1: int, c2: int, a2: int, b2: int)
    requires
        a1 >= 0,
        b1 >= 0,
        a2 >= 0,
        b2 >= 0,
        c1 * c1 <= a1 * b1,
        c2 * c2 <= a2 * b2,
    ensures
        2 * c1 * c2 <= a1 * b2 + a2 * b1,
{
    assert((a1 * b2 + a2 * b1) * (a1 * b2 + a2 * b1) >= 4 * (a1 * b1) * (a2 * b2))
        by (nonlinear_arith);
    assert(4 * (a1 * b1) * (a2 * b2) >= 4 * (c1 * c1) * (c2 * c2)) by (nonlinear_arith)
        requires c1 * c1 <= a1 * b1 && c2 * c2 <= a2 * b2;
    assert((2 * c1 * c2) * (2 * c1 * c2) == 4 * (c1 * c1) * (c2 * c2)) by (nonlinear_arith);
    assert(a1 * b2 + a2 * b1 >= 0) by (nonlinear_arith)
        requires a1 >= 0 && b1 >= 0 && a2 >= 0 && b2 >= 0;
    assert(2 * c1 * c2 <= a1 * b2 + a2 * b1) by (nonlinear_arith)
        requires
            (2 * c1 * c2) * (2 * c1 * c2) <= (a1 * b2 + a2 * b1) * (a1 * b2 + a2 * b1)
                && a1 * b2 + a2 * b1 >= 0;
}

/// Two Cauchy-Schwarz-bounded sums stay bounded when added.
proof fn lemma_cs_add(c1: int, a1: int, b1: int, c2: int, a2: int, b2: int)
    requires
        a1 >= 0,
        b1 >= 0,
        a2 >= 0,
        b2 >= 0,
        c1 * c1 <= a1 * b1,
        c2 * c2 <= a2 * b2,
    ensures
        (c1 + c2) * (c1 + c2) <= (a1 + a2) * (b1 + b2),
{
    lemma_cs_cross_term(c1, a1, b1, c2, a2, b2);
    assert((c1 + c2) * (c1 + c2) == c1 * c1 + 2 * c1 * c2 + c2 * c2) by (nonlinear_arith);
    assert((a1 + a2) * (b1 + b2) == a1 * b1 + a1 * b2 + a2 * b1 + a2 * b2) by (nonlinear_arith);
}

/// Cauchy-Schwarz for one template row: the cross sum squared is bounded by
/// the product of the window and template energies.
proof fn lemma_row_cauchy_schwarz(
    f: Seq<u8>, fw: int, t: Seq<u8>, tw: int, x: int, y: int, j: int, n: nat)
    ensures
        row_cross(f, fw, t, tw, x, y, j, n) * row_cross(f, fw, t, tw, x, y, j, n)
            <= row_energy(f, fw, x, y, j, n) * tpl_row_energy(t, tw, j, n),
    decreases n,
{
    if n > 0 {
        lemma_row_cauchy_schwarz(f, fw, t, tw, x, y, j, (n - 1) as nat);
        lemma_row_energy_bound(f, fw, x, y, j, (n - 1) as nat);
        lemma_tpl_row_energy_nonneg(t, tw, j, (n - 1) as nat);
        let fv = f[(y + j) * fw + x + n - 1];
        let tv = t[j * tw + n - 1];
        assert((fv * tv) * (fv * tv) == (fv * fv) * (tv * tv)) by (nonlinear_arith);
        assert(fv * fv >= 0 && tv * tv >= 0) by (nonlinear_arith);
        lemma_cs_add(
            row_cross(f, fw, t, tw, x, y, j, (n - 1) as nat),
            row_energy(f, fw, x, y, j, (n - 1) as nat),
            tpl_row_energy(t, tw, j, (n - 1) as nat),
            fv * tv, fv * fv, tv * tv);
    }
}

/// Cauchy-Schwarz for a whole window: the cross sum squared is bounded by
/// the product of the window and template energies.
proof fn lemma_win_cauchy_schwarz(
    f: Seq<u8>, fw: int, t: Seq<u8>, tw: int, x: int, y: int, m: nat)
    requires
        tw >= 0,
    ensures
        win_cross(f, fw, t, tw, x, y, m) * win_cross(f, fw, t, tw, x, y, m)
            <= win_energy(f, fw, x, y, tw, m) * tpl_energy(t, tw, m),
    decreases m,
{
    if m > 0 {
        lemma_win_cauchy_schwarz(f, fw, t, tw, x, y, (m - 1) as nat);
        lemma_win_energy_bound(f, fw, x, y, tw, (m - 1) as nat);
        lemma_tpl_energy_nonneg(t, tw, (m - 1) as nat);
        lemma_row_cauchy_schwarz(f, fw, t, tw, x, y, m - 1, tw as nat);
        lemma_row_energy_bound(f, fw, x, y, m - 1, tw as nat);
        lemma_tpl_row_energy_nonneg(t, tw, m - 1, tw as nat);
        lemma_cs_add(
            win_cross(f, fw, t, tw, x, y, (m - 1) as nat),
            win_energy(f, fw, x, y, tw, (m - 1) as nat),
            tpl_energy(t, tw, (m - 1) as nat),
            row_cross(f, fw, t, tw, x, y, m - 1, tw as nat),
            row_energy(f, fw, x, y, m - 1, tw as nat),
            tpl_row_energy(t, tw, m - 1, tw as nat));
    }
}

/// A badge correlated against itself scores at least as high as any window
/// of any other image correlated against it: the self-match is the global
/// maximum of the normalized cross-correlation.
pub proof fn lemma_self_match_dominates(
    f: Seq<u8>, fw: int, t: Seq<u8>, tw: int, th: nat, x: int, y: int)
    requires
        tw >= 0,
        tw * th <= MAX_TEMPLATE_AREA,
        tpl_energy(t, tw, th) >= 1,
    ensures
        spec_window_score(f, fw, t, tw, th, x, y)
            .spec_le(spec_window_score(t, tw, t, tw, th, 0, 0)),
{
    lemma_self_sums_agree(t, tw, th);
    lemma_tpl_energy_bound(t, tw, th);
    lemma_win_cross_bound(f, fw, t, tw, x, y, th);
    lemma_win_energy_bound(f, fw, x, y, tw, th);
    assert(65025 * th * tw <= 65025 * 16384) by (nonlinear_arith)
        requires tw >= 0 && th >= 0 && tw * (th as int) <= 16384;
    let e = tpl_energy(t, tw, th);
    let c = win_cross(f, fw, t, tw, x, y, th);
    let si = win_energy(f, fw, x, y, tw, th);
    assert(0 <= e * e <= (MAX_ENERGY as int) * (MAX_ENERGY as int)) by (nonlinear_arith)
        requires 0 <= e <= MAX_ENERGY;
    let p = spec_window_score(t, tw, t, tw, th, 0, 0);
    assert(p.cross == e && p.denom == e * e);
    let s = spec_window_score(f, fw, t, tw, th, x, y);
    if si == 0 {
        assert(s.cross == 0 && s.denom == e);
        assert(0 * 0 * (e * e) <= e * e * e) by (nonlinear_arith)
            requires e >= 1;
    } else {
        lemma_win_cauchy_schwarz(f, fw, t, tw, x, y, th);
        assert(0 <= si * e <= (MAX_ENERGY as int) * (MAX_ENERGY as int)) by (nonlinear_arith)
            requires 0 <= si <= MAX_ENERGY && 0 <= e <= MAX_ENERGY;
        assert(s.cross == c && s.denom == si * e);
        assert(c * c * (e * e) <= e * e * (si * e)) by (nonlinear_arith)
            requires c * c <= si * e && e >= 1;
    }
}


/// A window that holds the template's samples verbatim scores exactly the
/// self-match score, and so passes the acceptance threshold.
pub proof fn lemma_exact_window_is_perfect(
    f: Seq<u8>, fw: int, t: Seq<u8>, tw: int, th: nat, x: int, y: int)
    requires
        tw >= 0,
        tw * th <= MAX_TEMPLATE_AREA,
        tpl_energy(t, tw, th) >= 1,
        forall|i: int, j: int|
            0 <= i < tw && 0 <= j < th
                ==> f[(y + j) * fw + x + i] == t[#[trigger] (j * tw + i)],
    ensures
        spec_window_score(f, fw, t, tw, th, x, y)
            == spec_window_score(t, tw, t, tw, th, 0, 0),
        spec_window_score(f, fw, t, tw, th, x, y).spec_passes_threshold(),
{
    lemma_exact_window_sums(f, fw, t, tw, th, x, y, th);
    lemma_self_sums_agree(t, tw, th);
    lemma_self_match_is_perfect(t, tw, th);
}

proof fn lemma_exact_window_sums(
    f: Seq<u8>, fw: int, t: Seq<u8>, tw: int, th: nat, x: int, y: int, m: nat)
    requires
        tw >= 0,
        m <= th,
        forall|i: int, j: int|
            0 <= i < tw && 0 <= j < th
                ==> f[(y + j) * fw + x + i] == t[#[trigger] (j * tw + i)],
    ensures
        win_cross(f, fw, t, tw, x, y, m) == tpl_energy(t, tw, m),
        win_energy(f, fw, x, y, tw, m) == tpl_energy(t, tw, m),
    decreases m,
{
    if m > 0 {
        lemma_exact_window_sums(f, fw, t, tw, th, x, y, (m - 1) as nat);
        lemma_exact_row_sums(f, fw, t, tw, th, x, y, m - 1, tw as nat);
    }
}

proof fn lemma_exact_row_sums(
    f: Seq<u8>, fw: int, t: Seq<u8>, tw: int, th: nat, x: int, y: int, j: int, n: nat)
    requires
        tw >= 0,
        0 <= j < th,
        n <= tw,
        forall|i: int, jj: int|
            0 <= i < tw && 0 <= jj < th
                ==> f[(y + jj) * fw + x + i] == t[#[trigger] (jj * tw + i)],
    ensures
        row_cross(f, fw, t, tw, x, y, j, n) == tpl_row_energy(t, tw, j, n),
        row_energy(f, fw, x, y, j, n) == tpl_row_energy(t, tw, j, n),
    decreases n,
{
    if n > 0 {
        lemma_exact_row_sums(f, fw, t, tw, th, x, y, j, (n - 1) as nat);
        assert(f[(y + j) * fw + x + n - 1] == t[j * tw + (n - 1)]);
    }
}

} // verus!
