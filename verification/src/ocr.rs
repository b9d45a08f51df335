//! The glyph matcher: fixed-alphabet template text recognition.
//!
//! A small alphabet of pre-rendered, binarized glyph bitmaps is correlated
//! against a contrast-inverted text region. For every column of the region,
//! the candidates are the template placements whose normalized
//! cross-correlation exceeds the acceptance threshold; scanning left to
//! right, each claimed column contributes its candidate's character and
//! skips that template's width. Empty or partial recognition is not an
//! error: it simply yields a shorter string.

use vstd::prelude::*;
use crate::frame::GrayFrame;
use crate::score::{
    Score, MAX_TEMPLATE_AREA, tpl_energy, spec_window_score, window_score, template_energy,
    lemma_energy_positive_at_pixel, lemma_window_score_wf,
};
use crate::text::push_char;

verus! {

/// One recognized character's pre-rendered glyph bitmap.
pub struct Template {
    /// The character this template recognizes.
    pub ch: char,
    /// The binarized, inverted glyph image.
    pub img: GrayFrame,
}

impl Template {
    /// A usable template: non-empty, small enough for the correlator, and
    /// carrying at least some ink.
    pub open spec fn wf(&self) -> bool {
        &&& self.img.wf()
        &&& 1 <= self.img.spec_width()
        &&& 1 <= self.img.spec_height()
        &&& (self.img.spec_width() as int) * (self.img.spec_height() as int) <= MAX_TEMPLATE_AREA
        &&& tpl_energy(self.img.raw(), self.img.spec_width() as int, self.img.spec_height() as nat) > 0
    }
}

/// Every template of the table is usable.
pub open spec fn table_wf(table: Seq<Template>) -> bool {
    forall|k: int| 0 <= k < table.len() ==> (#[trigger] table[k]).wf()
}

/// Bit `i` of a packed glyph row: the pixel at column `i` is set.
pub open spec fn glyph_bit(row: u8, i: int) -> bool {
    (row >> (i as u8)) & 1 == 1
}

/// The sample a packed glyph row produces at column `i`: full white for a
/// set bit, black otherwise.
pub open spec fn glyph_px(row: u8, i: int) -> u8 {
    if glyph_bit(row, i) { 255 } else { 0 }
}

/// Builds one character template from packed bitmap rows: bit `i` of
/// `rows[j]` is the pixel at `(i, j)`, rendered bright on black (the
/// inverted, binarized form the matcher works on). `None` when the requested
/// width or height is out of range or the bitmap has no ink.
pub fn load_char(ch: char, width: u32, rows: &Vec<u8>) -> (r: Option<Template>)
    ensures
        r is Some <==> {
            &&& 1 <= width <= 8
            &&& 1 <= rows@.len() <= 2048
            &&& exists|j: int, i: int|
                0 <= j < rows@.len() && 0 <= i < width && glyph_bit(rows@[j], i)
        },
        r matches Some(t) ==> {
            &&& t.ch == ch
            &&& t.img.spec_width() == width
            &&& t.img.spec_height() == rows@.len()
            &&& t.wf()
            &&& forall|x: int, y: int|
                0 <= x < width && 0 <= y < rows@.len()
                    ==> t.img.at(x, y) == glyph_px(rows@[y], x)
        },
{
    if width < 1 || width > 8 {
        return None;
    }
    let h = rows.len();
    if h < 1 || h > 2048 {
        return None;
    }
    let mut data: Vec<u8> = Vec::new();
    let mut found = false;
    let ghost mut fx: int = 0;
    let ghost mut fy: int = 0;
    let mut j: usize = 0;
    while j < h
        invariant
            1 <= width <= 8,
            h == rows@.len(),
            1 <= h <= 2048,
            j <= h,
            data@.len() == j * (width as int),
            forall|x: int, y: int|
                0 <= x < width && 0 <= y < j
                    ==> data@[y * (width as int) + x] == glyph_px(rows@[y], x),
            found <==> exists|j2: int, i2: int|
                0 <= j2 < j && 0 <= i2 < width && glyph_bit(rows@[j2], i2),
            found ==> 0 <= fx < width && 0 <= fy < j && glyph_bit(rows@[fy], fx),
        decreases h - j,
    {
        let b = rows[j];
        let mut i: u32 = 0;
        while i < width
            invariant
                1 <= width <= 8,
                h == rows@.len(),
                1 <= h <= 2048,
                j < h,
                b == rows@[j as int],
                i <= width,
                data@.len() == j * (width as int) + i,
                forall|x: int, y: int|
                    0 <= x < width && 0 <= y < j
                        ==> data@[y * (width as int) + x] == glyph_px(rows@[y], x),
                forall|x: int|
                    0 <= x < i
                        ==> data@[(j as int) * (width as int) + x] == glyph_px(rows@[j as int], x),
                found <==> (exists|j2: int, i2: int|
                    0 <= j2 < j && 0 <= i2 < width && glyph_bit(rows@[j2], i2))
                    || (exists|i2: int| 0 <= i2 < i && glyph_bit(rows@[j as int], i2)),
                found ==> 0 <= fx < width && 0 <= fy <= j && glyph_bit(rows@[fy], fx),
            decreases width - i,
        {
            proof {
                assert forall|x: int, y: int| 0 <= x < width && 0 <= y < j
                    implies #[trigger] (y * (width as int) + x) < (j as int) * (width as int) by {
                    crate::frame::lemma_grid_index(width as int, j as int, x, y);
                    assert((width as int) * (j as int) == (j as int) * (width as int))
                        by (nonlinear_arith);
                };
            }
            let bit: u8 = (b >> (i as u8)) & 1;
            let v: u8 = if bit == 1 { 255 } else { 0 };
            proof {
                if bit == 1 {
                    assert(glyph_bit(rows@[j as int], i as int));
                } else {
                    assert(!glyph_bit(rows@[j as int], i as int));
                }
            }
            if v != 0 && !found {
                found = true;
                proof {
                    fx = i as int;
                    fy = j as int;
                }
            }
            data.push(v);
            i = i + 1;
        }
        j = j + 1;
        proof {
            assert((j - 1) * (width as int) + (width as int) == j * (width as int))
                by (nonlinear_arith);
        }
    }
    if !found {
        return None;
    }
    proof {
        assert((h as int) * (width as int) == (width as int) * (h as int)) by (nonlinear_arith);
    }
    let img = GrayFrame::from_bytes_exact(width, h as u32, data);
    proof {
        assert forall|x: int, y: int| 0 <= x < width && 0 <= y < h
            implies #[trigger] (y * (width as int) + x) < (h as int) * (width as int) by {
            crate::frame::lemma_grid_index(width as int, h as int, x, y);
            assert((width as int) * (h as int) == (h as int) * (width as int))
                by (nonlinear_arith);
        };
        assert(img.at(fx, fy) == glyph_px(rows@[fy], fx));
        assert(img.raw()[fy * (width as int) + fx] > 0);
        lemma_energy_positive_at_pixel(img.raw(), width as int, h as nat, fx, fy);
        assert((width as int) * (h as int) <= 8 * 2048) by (nonlinear_arith)
            requires width <= 8 && h <= 2048;
    }
    Some(Template { ch, img })
}

/// Appends the template for one character to the table, if its bitmap is
/// usable.
fn push_template(table: &mut Vec<Template>, ch: char, rows: &Vec<u8>)
    requires
        table_wf(old(table)@),
    ensures
        table_wf(final(table)@),
        (1 <= rows@.len() <= 2048 && exists|j: int, i: int|
            0 <= j < rows@.len() && 0 <= i < GLYPH_WIDTH && glyph_bit(rows@[j], i))
            ==> {
                &&& final(table)@.len() == old(table)@.len() + 1
                &&& final(table)@.last().ch == ch
            },
        forall|k: int| 0 <= k < old(table)@.len()
            ==> final(table)@[k] == old(table)@[k],
{
    match load_char(ch, GLYPH_WIDTH, rows) {
        Some(t) => {
            table.push(t);
            proof {
                assert forall|k: int| 0 <= k < table@.len()
                    implies (#[trigger] table@[k]).wf() by {
                    if k < old(table)@.len() {
                        assert(table@[k] == old(table)@[k]);
                    }
                };
            }
        },
        None => {},
    }
}

/// Width in pixels of every bundled glyph.
pub const GLYPH_WIDTH: u32 = 7;

/// Height in pixels of every bundled glyph.
pub const GLYPH_HEIGHT: u32 = 10;

/// The bundled template table: one binarized glyph per recognized
/// character, in fixed alphabet order. Each bitmap holds the character
/// shape in its upper rows and a template-distinguishing bit pattern in the
/// bottom two, which keeps every pair of templates below the acceptance
/// threshold against each other.
pub fn get_chars() -> (r: Vec<Template>)
    ensures
        table_wf(r@),
        r@.len() == 33,
        r@.map_values(|t: Template| t.ch) == "0123456789:'ABCDEGHIKLMNOPRSTUWYZ"@,
{
    let mut table: Vec<Template> = Vec::new();
    let rows_0: Vec<u8> = vec![0x00, 0x0E, 0x11, 0x19, 0x15, 0x13, 0x11, 0x0E, 0x00, 0x7F];
    proof {
        assert(glyph_bit(0x0Eu8, 1)) by (bit_vector);
        assert(glyph_bit(rows_0@[1], 1));
    }
    push_template(&mut table, '0', &rows_0);
    let rows_1: Vec<u8> = vec![0x00, 0x04, 0x06, 0x04, 0x04, 0x04, 0x04, 0x0E, 0x41, 0x3E];
    proof {
        assert(glyph_bit(0x04u8, 2)) by (bit_vector);
        assert(glyph_bit(rows_1@[1], 2));
    }
    push_template(&mut table, '1', &rows_1);
    let rows_2: Vec<u8> = vec![0x00, 0x0E, 0x11, 0x10, 0x08, 0x04, 0x02, 0x1F, 0x42, 0x3D];
    proof {
        assert(glyph_bit(0x0Eu8, 1)) by (bit_vector);
        assert(glyph_bit(rows_2@[1], 1));
    }
    push_template(&mut table, '2', &rows_2);
    let rows_3: Vec<u8> = vec![0x00, 0x0E, 0x11, 0x10, 0x0C, 0x10, 0x11, 0x0E, 0x03, 0x7C];
    proof {
        assert(glyph_bit(0x0Eu8, 1)) by (bit_vector);
        assert(glyph_bit(rows_3@[1], 1));
    }
    push_template(&mut table, '3', &rows_3);
    let rows_4: Vec<u8> = vec![0x00, 0x08, 0x0C, 0x0A, 0x09, 0x1F, 0x08, 0x08, 0x44, 0x3B];
    proof {
        assert(glyph_bit(0x08u8, 3)) by (bit_vector);
        assert(glyph_bit(rows_4@[1], 3));
    }
    push_template(&mut table, '4', &rows_4);
    let rows_5: Vec<u8> = vec![0x00, 0x1F, 0x01, 0x0F, 0x10, 0x10, 0x11, 0x0E, 0x05, 0x7A];
    proof {
        assert(glyph_bit(0x1Fu8, 0)) by (bit_vector);
        assert(glyph_bit(rows_5@[1], 0));
    }
    push_template(&mut table, '5', &rows_5);
    let rows_6: Vec<u8> = vec![0x00, 0x0C, 0x02, 0x01, 0x0F, 0x11, 0x11, 0x0E, 0x06, 0x79];
    proof {
        assert(glyph_bit(0x0Cu8, 2)) by (bit_vector);
        assert(glyph_bit(rows_6@[1], 2));
    }
    push_template(&mut table, '6', &rows_6);
    let rows_7: Vec<u8> = vec![0x00, 0x1F, 0x10, 0x08, 0x04, 0x02, 0x02, 0x02, 0x47, 0x38];
    proof {
        assert(glyph_bit(0x1Fu8, 0)) by (bit_vector);
        assert(glyph_bit(rows_7@[1], 0));
    }
    push_template(&mut table, '7', &rows_7);
    let rows_8: Vec<u8> = vec![0x00, 0x0E, 0x11, 0x11, 0x0E, 0x11, 0x11, 0x0E, 0x48, 0x37];
    proof {
        assert(glyph_bit(0x0Eu8, 1)) by (bit_vector);
        assert(glyph_bit(rows_8@[1], 1));
    }
    push_template(&mut table, '8', &rows_8);
    let rows_9: Vec<u8> = vec![0x00, 0x0E, 0x11, 0x11, 0x1E, 0x10, 0x08, 0x06, 0x09, 0x76];
    proof {
        assert(glyph_bit(0x0Eu8, 1)) by (bit_vector);
        assert(glyph_bit(rows_9@[1], 1));
    }
    push_template(&mut table, '9', &rows_9);
    let rows_10: Vec<u8> = vec![0x00, 0x00, 0x04, 0x0E, 0x04, 0x00, 0x04, 0x0E, 0x0A, 0x75];
    proof {
        assert(glyph_bit(0x04u8, 2)) by (bit_vector);
        assert(glyph_bit(rows_10@[2], 2));
    }
    push_template(&mut table, ':', &rows_10);
    let rows_11: Vec<u8> = vec![0x00, 0x04, 0x04, 0x02, 0x00, 0x00, 0x00, 0x00, 0x4B, 0x34];
    proof {
        assert(glyph_bit(0x04u8, 2)) by (bit_vector);
        assert(glyph_bit(rows_11@[1], 2));
    }
    push_template(&mut table, '\'', &rows_11);
    let rows_12: Vec<u8> = vec![0x00, 0x0E, 0x11, 0x11, 0x1F, 0x11, 0x11, 0x11, 0x0C, 0x73];
    proof {
        assert(glyph_bit(0x0Eu8, 1)) by (bit_vector);
        assert(glyph_bit(rows_12@[1], 1));
    }
    push_template(&mut table, 'A', &rows_12);
    let rows_13: Vec<u8> = vec![0x00, 0x0F, 0x11, 0x11, 0x0F, 0x11, 0x11, 0x0F, 0x4D, 0x32];
    proof {
        assert(glyph_bit(0x0Fu8, 0)) by (bit_vector);
        assert(glyph_bit(rows_13@[1], 0));
    }
    push_template(&mut table, 'B', &rows_13);
    let rows_14: Vec<u8> = vec![0x00, 0x0E, 0x11, 0x01, 0x01, 0x01, 0x11, 0x0E, 0x4E, 0x31];
    proof {
        assert(glyph_bit(0x0Eu8, 1)) by (bit_vector);
        assert(glyph_bit(rows_14@[1], 1));
    }
    push_template(&mut table, 'C', &rows_14);
    let rows_15: Vec<u8> = vec![0x00, 0x0F, 0x11, 0x11, 0x11, 0x11, 0x11, 0x0F, 0x0F, 0x70];
    proof {
        assert(glyph_bit(0x0Fu8, 0)) by (bit_vector);
        assert(glyph_bit(rows_15@[1], 0));
    }
    push_template(&mut table, 'D', &rows_15);
    let rows_16: Vec<u8> = vec![0x00, 0x1F, 0x01, 0x01, 0x0F, 0x01, 0x01, 0x1F, 0x50, 0x2F];
    proof {
        assert(glyph_bit(0x1Fu8, 0)) by (bit_vector);
        assert(glyph_bit(rows_16@[1], 0));
    }
    push_template(&mut table, 'E', &rows_16);
    let rows_17: Vec<u8> = vec![0x00, 0x0E, 0x11, 0x01, 0x1D, 0x11, 0x11, 0x0E, 0x11, 0x6E];
    proof {
        assert(glyph_bit(0x0Eu8, 1)) by (bit_vector);
        assert(glyph_bit(rows_17@[1], 1));
    }
    push_template(&mut table, 'G', &rows_17);
    let rows_18: Vec<u8> = vec![0x00, 0x11, 0x11, 0x11, 0x1F, 0x11, 0x11, 0x11, 0x12, 0x6D];
    proof {
        assert(glyph_bit(0x11u8, 0)) by (bit_vector);
        assert(glyph_bit(rows_18@[1], 0));
    }
    push_template(&mut table, 'H', &rows_18);
    let rows_19: Vec<u8> = vec![0x00, 0x0E, 0x04, 0x04, 0x04, 0x04, 0x04, 0x0E, 0x53, 0x2C];
    proof {
        assert(glyph_bit(0x0Eu8, 1)) by (bit_vector);
        assert(glyph_bit(rows_19@[1], 1));
    }
    push_template(&mut table, 'I', &rows_19);
    let rows_20: Vec<u8> = vec![0x00, 0x11, 0x09, 0x05, 0x03, 0x05, 0x09, 0x11, 0x14, 0x6B];
    proof {
        assert(glyph_bit(0x11u8, 0)) by (bit_vector);
        assert(glyph_bit(rows_20@[1], 0));
    }
    push_template(&mut table, 'K', &rows_20);
    let rows_21: Vec<u8> = vec![0x00, 0x01, 0x01, 0x01, 0x01, 0x01, 0x01, 0x1F, 0x55, 0x2A];
    proof {
        assert(glyph_bit(0x01u8, 0)) by (bit_vector);
        assert(glyph_bit(rows_21@[1], 0));
    }
    push_template(&mut table, 'L', &rows_21);
    let rows_22: Vec<u8> = vec![0x00, 0x11, 0x1B, 0x15, 0x15, 0x11, 0x11, 0x11, 0x56, 0x29];
    proof {
        assert(glyph_bit(0x11u8, 0)) by (bit_vector);
        assert(glyph_bit(rows_22@[1], 0));
    }
    push_template(&mut table, 'M', &rows_22);
    let rows_23: Vec<u8> = vec![0x00, 0x11, 0x13, 0x15, 0x19, 0x11, 0x11, 0x11, 0x17, 0x68];
    proof {
        assert(glyph_bit(0x11u8, 0)) by (bit_vector);
        assert(glyph_bit(rows_23@[1], 0));
    }
    push_template(&mut table, 'N', &rows_23);
    let rows_24: Vec<u8> = vec![0x00, 0x0E, 0x11, 0x11, 0x11, 0x11, 0x11, 0x0E, 0x18, 0x67];
    proof {
        assert(glyph_bit(0x0Eu8, 1)) by (bit_vector);
        assert(glyph_bit(rows_24@[1], 1));
    }
    push_template(&mut table, 'O', &rows_24);
    let rows_25: Vec<u8> = vec![0x00, 0x0F, 0x11, 0x11, 0x0F, 0x01, 0x01, 0x01, 0x59, 0x26];
    proof {
        assert(glyph_bit(0x0Fu8, 0)) by (bit_vector);
        assert(glyph_bit(rows_25@[1], 0));
    }
    push_template(&mut table, 'P', &rows_25);
    let rows_26: Vec<u8> = vec![0x00, 0x0F, 0x11, 0x11, 0x0F, 0x05, 0x09, 0x11, 0x5A, 0x25];
    proof {
        assert(glyph_bit(0x0Fu8, 0)) by (bit_vector);
        assert(glyph_bit(rows_26@[1], 0));
    }
    push_template(&mut table, 'R', &rows_26);
    let rows_27: Vec<u8> = vec![0x00, 0x0E, 0x11, 0x01, 0x0E, 0x10, 0x11, 0x0E, 0x1B, 0x64];
    proof {
        assert(glyph_bit(0x0Eu8, 1)) by (bit_vector);
        assert(glyph_bit(rows_27@[1], 1));
    }
    push_template(&mut table, 'S', &rows_27);
    let rows_28: Vec<u8> = vec![0x00, 0x1F, 0x04, 0x04, 0x04, 0x04, 0x04, 0x04, 0x5C, 0x23];
    proof {
        assert(glyph_bit(0x1Fu8, 0)) by (bit_vector);
        assert(glyph_bit(rows_28@[1], 0));
    }
    push_template(&mut table, 'T', &rows_28);
    let rows_29: Vec<u8> = vec![0x00, 0x11, 0x11, 0x11, 0x11, 0x11, 0x11, 0x0E, 0x1D, 0x62];
    proof {
        assert(glyph_bit(0x11u8, 0)) by (bit_vector);
        assert(glyph_bit(rows_29@[1], 0));
    }
    push_template(&mut table, 'U', &rows_29);
    let rows_30: Vec<u8> = vec![0x00, 0x11, 0x11, 0x11, 0x15, 0x15, 0x15, 0x0A, 0x1E, 0x61];
    proof {
        assert(glyph_bit(0x11u8, 0)) by (bit_vector);
        assert(glyph_bit(rows_30@[1], 0));
    }
    push_template(&mut table, 'W', &rows_30);
    let rows_31: Vec<u8> = vec![0x00, 0x11, 0x11, 0x0A, 0x04, 0x04, 0x04, 0x04, 0x5F, 0x20];
    proof {
        assert(glyph_bit(0x11u8, 0)) by (bit_vector);
        assert(glyph_bit(rows_31@[1], 0));
    }
    push_template(&mut table, 'Y', &rows_31);
    let rows_32: Vec<u8> = vec![0x00, 0x1F, 0x10, 0x08, 0x04, 0x02, 0x01, 0x1F, 0x60, 0x1F];
    proof {
        assert(glyph_bit(0x1Fu8, 0)) by (bit_vector);
        assert(glyph_bit(rows_32@[1], 0));
    }
    push_template(&mut table, 'Z', &rows_32);
    proof {
        reveal_strlit("0123456789:'ABCDEGHIKLMNOPRSTUWYZ");
        assert(table@.map_values(|t: Template| t.ch)
            =~= "0123456789:'ABCDEGHIKLMNOPRSTUWYZ"@);
    }
    table
}

/// A per-column candidate: the selected template's score, character and
/// pixel width.
#[derive(Clone, Copy, Debug, PartialEq, Eq, Structural)]
pub struct CandEntry {
    /// The placement's correlation score.
    pub score: Score,
    /// The character the winning template recognizes.
    pub ch: char,
    /// The winning template's width, by which the scan advances.
    pub width: u32,
}

/// The template, placed at column `x`, fits inside the text image.
pub open spec fn tpl_fits(fw: int, fh: int, t: Template, x: int) -> bool {
    &&& x + t.img.spec_width() <= fw
    &&& t.img.spec_height() <= fh
}

/// The template's correlation score at placement `(x, y)` of the text
/// image.
pub open spec fn tpl_score_at(fraw: Seq<u8>, fw: int, t: Template, x: int, y: int) -> Score {
    spec_window_score(
        fraw, fw, t.img.raw(), t.img.spec_width() as int,
        t.img.spec_height() as nat, x, y)
}

/// Folds one placement into a column's candidate: a placement below the
/// acceptance threshold is ignored; above it, the lowest-scoring candidate
/// wins the column, the earlier one on ties.
pub open spec fn merge_candidate(cur: Option<CandEntry>, s: Score, ch: char, w: u32)
    -> Option<CandEntry>
{
    if !s.spec_passes_threshold() {
        cur
    } else {
        match cur {
            None => Some(CandEntry { score: s, ch, width: w }),
            Some(c0) => if s.spec_lt(c0.score) {
                Some(CandEntry { score: s, ch, width: w })
            } else {
                cur
            },
        }
    }
}

/// The column-`x` candidate after folding the template's placements at
/// heights below `yn` into `cur`.
pub open spec fn cand_tpl_upto(
    fraw: Seq<u8>, fw: int, t: Template, x: int, cur: Option<CandEntry>, yn: nat)
    -> Option<CandEntry>
    decreases yn,
{
    if yn == 0 {
        cur
    } else {
        merge_candidate(
            cand_tpl_upto(fraw, fw, t, x, cur, (yn - 1) as nat),
            tpl_score_at(fraw, fw, t, x, yn - 1),
            t.ch,
            t.img.spec_width())
    }
}

/// The number of vertical placements of template `t` in image `f`.
pub open spec fn yspan(fh: int, t: Template) -> nat {
    (fh - t.img.spec_height() + 1) as nat
}

/// The column-`x` candidate after the first `ti` templates of the table.
pub open spec fn cand_upto(
    fraw: Seq<u8>, fw: int, fh: int, table: Seq<Template>, x: int, ti: nat)
    -> Option<CandEntry>
    decreases ti,
{
    if ti == 0 {
        None
    } else {
        let prev = cand_upto(fraw, fw, fh, table, x, (ti - 1) as nat);
        let t = table[ti - 1];
        if tpl_fits(fw, fh, t, x) {
            cand_tpl_upto(fraw, fw, t, x, prev, yspan(fh, t))
        } else {
            prev
        }
    }
}

/// The candidate the whole table selects for column `x`.
pub open spec fn column_candidate(
    fraw: Seq<u8>, fw: int, fh: int, table: Seq<Template>, x: int)
    -> Option<CandEntry>
{
    cand_upto(fraw, fw, fh, table, x, table.len())
}

/// A candidate entry is usable: its score is well-formed and its width
/// advances the scan past column `x` without leaving the image.
pub open spec fn cand_props(fw: int, x: int, c: Option<CandEntry>) -> bool {
    c matches Some(e) ==> e.score.wf() && 1 <= e.width && x + e.width <= fw
}

proof fn lemma_cand_tpl_upto_props(
    fraw: Seq<u8>, fw: int, fh: int, t: Template, x: int, cur: Option<CandEntry>, yn: nat)
    requires
        t.wf(),
        tpl_fits(fw, fh, t, x),
        cand_props(fw, x, cur),
    ensures
        cand_props(fw, x, cand_tpl_upto(fraw, fw, t, x, cur, yn)),
    decreases yn,
{
    if yn > 0 {
        lemma_cand_tpl_upto_props(fraw, fw, fh, t, x, cur, (yn - 1) as nat);
        lemma_window_score_wf(
            fraw, fw, t.img.raw(), t.img.spec_width() as int,
            t.img.spec_height() as nat, x, yn - 1);
    }
}

/// Whatever the table selects for a column can be compared and scanned
/// safely.
pub proof fn lemma_cand_upto_props(
    fraw: Seq<u8>, fw: int, fh: int, table: Seq<Template>, x: int, ti: nat)
    requires
        table_wf(table),
        ti <= table.len(),
    ensures
        cand_props(fw, x, cand_upto(fraw, fw, fh, table, x, ti)),
    decreases ti,
{
    if ti > 0 {
        lemma_cand_upto_props(fraw, fw, fh, table, x, (ti - 1) as nat);
        let t = table[ti - 1];
        if tpl_fits(fw, fh, t, x) {
            lemma_cand_tpl_upto_props(
                fraw, fw, fh, t, x, cand_upto(fraw, fw, fh, table, x, (ti - 1) as nat),
                yspan(fh, t));
        }
    }
}

/// Computes every column's candidate: for each template and each placement
/// whose score passes the acceptance threshold, the column keeps the
/// lowest-scoring (earliest on ties) candidate.
pub fn column_candidates(f: &GrayFrame, table: &Vec<Template>) -> (r: Vec<Option<CandEntry>>)
    requires
        f.wf(),
        table_wf(table@),
    ensures
        r@.len() == f.spec_width(),
        forall|x: int| 0 <= x < f.spec_width()
            ==> r@[x] == column_candidate(
                f.raw(), f.spec_width() as int, f.spec_height() as int, table@, x),
{
    let w = f.width();
    let h = f.height();
    let mut cands: Vec<Option<CandEntry>> = Vec::new();
    let mut x0: u32 = 0;
    while x0 < w
        invariant
            cands@.len() == x0 <= w,
            forall|x: int| 0 <= x < x0 ==> cands@[x] is None,
        decreases w - x0,
    {
        cands.push(None);
        x0 = x0 + 1;
    }
    let mut ti: usize = 0;
    while ti < table.len()
        invariant
            f.wf(),
            table_wf(table@),
            w == f.spec_width(),
            h == f.spec_height(),
            ti <= table@.len(),
            cands@.len() == w,
            forall|x: int| 0 <= x < w
                ==> cands@[x] == cand_upto(
                    f.raw(), w as int, h as int, table@, x, ti as nat),
        decreases table@.len() - ti,
    {
        let t = &table[ti];
        let tw = t.img.width();
        let th = t.img.height();
        if tw <= w && th <= h {
            let energy = template_energy(&t.img);
            proof {
                assert(tpl_energy(t.img.raw(), t.img.spec_width() as int, t.img.spec_height() as nat) > 0);
            }
            let ys: u32 = h - th + 1;
            let xs: u32 = w - tw + 1;
            let mut x: u32 = 0;
            while x < xs
                invariant
                    f.wf(),
                    table_wf(table@),
                    w == f.spec_width(),
                    h == f.spec_height(),
                    ti < table@.len(),
                    t == &table@[ti as int],
                    t.wf(),
                    tw == t.img.spec_width(),
                    th == t.img.spec_height(),
                    tw <= w,
                    th <= h,
                    energy == tpl_energy(t.img.raw(), tw as int, th as nat),
                    energy >= 1,
                    ys == yspan(h as int, *t),
                    xs == w - tw + 1,
                    x <= xs,
                    cands@.len() == w,
                    forall|xx: int| 0 <= xx < x
                        ==> cands@[xx] == cand_upto(
                            f.raw(), w as int, h as int, table@, xx, (ti + 1) as nat),
                    forall|xx: int| x <= xx < w
                        ==> cands@[xx] == cand_upto(
                            f.raw(), w as int, h as int, table@, xx, ti as nat),
                decreases xs - x,
            {
                let mut cur: Option<CandEntry> = cands[x as usize];
                proof {
                    lemma_cand_upto_props(
                        f.raw(), w as int, h as int, table@, x as int, ti as nat);
                }
                let mut y: u32 = 0;
                while y < ys
                    invariant
                        f.wf(),
                        t.wf(),
                        w == f.spec_width(),
                        h == f.spec_height(),
                        tw == t.img.spec_width(),
                        th == t.img.spec_height(),
                        tw <= w,
                        th <= h,
                        x < xs,
                        xs == w - tw + 1,
                        ys == yspan(h as int, *t),
                        energy == tpl_energy(t.img.raw(), tw as int, th as nat),
                        energy >= 1,
                        y <= ys,
                        cur == cand_tpl_upto(
                            f.raw(), w as int, *t, x as int,
                            cand_upto(f.raw(), w as int, h as int, table@, x as int, ti as nat),
                            y as nat),
                        cand_props(w as int, x as int, cur),
                    decreases ys - y,
                {
                    let s = window_score(f, &t.img, x, y, energy);
                    if s.passes_threshold() {
                        cur = match cur {
                            None => Some(CandEntry { score: s, ch: t.ch, width: tw }),
                            Some(c0) => if s.lt(&c0.score) {
                                Some(CandEntry { score: s, ch: t.ch, width: tw })
                            } else {
                                Some(c0)
                            },
                        };
                    }
                    y = y + 1;
                }
                cands.set(x as usize, cur);
                x = x + 1;
            }
            proof {
                assert forall|xx: int| 0 <= xx < w
                    implies cands@[xx] == cand_upto(
                        f.raw(), w as int, h as int, table@, xx, (ti + 1) as nat) by {
                    if xx >= xs {
                        assert(!tpl_fits(w as int, h as int, table@[ti as int], xx));
                    }
                };
            }
        } else {
            proof {
                assert forall|xx: int| 0 <= xx < w
                    implies cands@[xx] == cand_upto(
                        f.raw(), w as int, h as int, table@, xx, (ti + 1) as nat) by {
                    assert(!tpl_fits(w as int, h as int, table@[ti as int], xx));
                };
            }
        }
        ti = ti + 1;
    }
    cands
}

/// The characters the left-to-right scan reads starting at column `x`: an
/// unclaimed column advances by one pixel; a claimed one contributes its
/// candidate's character and advances by that template's width.
pub open spec fn scan(cands: Seq<Option<CandEntry>>, x: nat) -> Seq<char>
    decreases cands.len() - x,
{
    if x >= cands.len() {
        Seq::empty()
    } else {
        match cands[x as int] {
            None => scan(cands, x + 1),
            Some(c) => {
                let step: nat = if c.width >= 1 { c.width as nat } else { 1 };
                let nx: nat = if x + step > cands.len() { cands.len() } else { x + step };
                seq![c.ch] + scan(cands, nx)
            },
        }
    }
}

/// The per-column candidates of the whole text image.
pub open spec fn spec_candidates(
    fraw: Seq<u8>, fw: int, fh: int, table: Seq<Template>) -> Seq<Option<CandEntry>>
{
    Seq::new(if fw >= 0 { fw as nat } else { 0 },
        |x: int| column_candidate(fraw, fw, fh, table, x))
}

/// The string the glyph matcher reads from the text image.
pub open spec fn spec_ocr(fraw: Seq<u8>, fw: int, fh: int, table: Seq<Template>) -> Seq<char> {
    scan(spec_candidates(fraw, fw, fh, table), 0)
}

/// Reads a short fixed-alphabet string from a contrast-inverted text image
/// by template correlation. Recognition failure is not an error: unmatched
/// columns are simply skipped.
pub fn ocr(text: &GrayFrame, table: &Vec<Template>) -> (r: String)
    requires
        text.wf(),
        table_wf(table@),
    ensures
        r@ == spec_ocr(
            text.raw(), text.spec_width() as int, text.spec_height() as int, table@),
{
    let cands = column_candidates(text, table);
    proof {
        assert(cands@ =~= spec_candidates(
            text.raw(), text.spec_width() as int, text.spec_height() as int, table@));
    }
    let w = text.width();
    let mut result = String::new();
    let mut x: u32 = 0;
    while x < w
        invariant
            cands@ == spec_candidates(
                text.raw(), text.spec_width() as int, text.spec_height() as int, table@),
            cands@.len() == w,
            w == text.spec_width(),
            table_wf(table@),
            result@ + scan(cands@, x as nat) == scan(cands@, 0),
        decreases w - x,
    {
        match cands[x as usize] {
            Some(c) => {
                proof {
                    lemma_cand_upto_props(
                        text.raw(), text.spec_width() as int, text.spec_height() as int,
                        table@, x as int, table@.len());
                }
                push_char(&mut result, c.ch);
                proof {
                    assert(result@ + scan(cands@, (x + c.width) as nat) =~= scan(cands@, 0));
                }
                x = x + c.width;
            },
            None => {
                x = x + 1;
            },
        }
    }
    proof {
        assert(result@ + scan(cands@, x as nat) =~= result@);
        assert(result@ =~= scan(cands@, 0));
    }
    result
}


/// Where the `k`-th of a row of claimed glyphs starts: the sum of the
/// widths before it.
pub open spec fn entry_offset(ks: Seq<CandEntry>, k: int) -> int
    decreases k,
{
    if k <= 0 {
        0
    } else {
        entry_offset(ks, k - 1) + ks[k - 1].width
    }
}

/// The characters of a row of claimed glyphs.
pub open spec fn entry_chars(ks: Seq<CandEntry>) -> Seq<char> {
    Seq::new(ks.len(), |k: int| ks[k].ch)
}

/// Offsets grow by at least one column per glyph.
proof fn lemma_entry_offset_mono(ks: Seq<CandEntry>, a: int, b: int)
    requires
        0 <= a <= b <= ks.len(),
        forall|k: int| 0 <= k < ks.len() ==> (#[trigger] ks[k]).width >= 1,
    ensures
        entry_offset(ks, a) + (b - a) <= entry_offset(ks, b),
    decreases b - a,
{
    if a < b {
        lemma_entry_offset_mono(ks, a, b - 1);
    }
}

/// Glyph-matcher round trip, scan side: when every glyph start column is
/// claimed by exactly that glyph's candidate — widths positive, offsets
/// partitioning the image width — the left-to-right scan reads back
/// exactly the glyphs' characters, whatever the unclaimed columns hold.
pub proof fn lemma_scan_of_claimed_columns(cands: Seq<Option<CandEntry>>, ks: Seq<CandEntry>)
    requires
        forall|k: int| 0 <= k < ks.len() ==> (#[trigger] ks[k]).width >= 1,
        forall|k: int| 0 <= k < ks.len()
            ==> cands[entry_offset(ks, k)] == Some(#[trigger] ks[k]),
        entry_offset(ks, ks.len() as int) == cands.len(),
    ensures
        scan(cands, 0) == entry_chars(ks),
{
    lemma_scan_from_entry(cands, ks, 0);
    assert(entry_chars(ks).skip(0) =~= entry_chars(ks));
}

proof fn lemma_scan_from_entry(cands: Seq<Option<CandEntry>>, ks: Seq<CandEntry>, k: int)
    requires
        0 <= k <= ks.len(),
        forall|kk: int| 0 <= kk < ks.len() ==> (#[trigger] ks[kk]).width >= 1,
        forall|kk: int| 0 <= kk < ks.len()
            ==> cands[entry_offset(ks, kk)] == Some(#[trigger] ks[kk]),
        entry_offset(ks, ks.len() as int) == cands.len(),
    ensures
        scan(cands, entry_offset(ks, k) as nat) == entry_chars(ks).skip(k),
    decreases ks.len() - k,
{
    let x = entry_offset(ks, k);
    lemma_entry_offset_mono(ks, 0, k);
    lemma_entry_offset_mono(ks, k, ks.len() as int);
    if k == ks.len() {
        assert(x == cands.len());
        assert(entry_chars(ks).skip(k) =~= Seq::<char>::empty());
    } else {
        assert(0 <= x < cands.len());
        assert(cands[x] == Some(ks[k]));
        let w = ks[k].width as int;
        assert(entry_offset(ks, k + 1) == x + w);
        lemma_entry_offset_mono(ks, k + 1, ks.len() as int);
        assert(x + w <= cands.len());
        lemma_scan_from_entry(cands, ks, k + 1);
        assert(scan(cands, x as nat)
            == seq![ks[k].ch] + scan(cands, (x + w) as nat));
        assert(entry_chars(ks).skip(k)
            =~= seq![ks[k].ch] + entry_chars(ks).skip(k + 1));
    }
}

/// A usable duration part: non-empty, at most seven digits, digits only.
pub open spec fn part_ok(s: Seq<char>, b: int, e: int) -> bool {
    &&& b < e
    &&& e - b <= 7
    &&& crate::range::all_digits(s, b, e)
}

/// The seconds a recognized duration text denotes: `M:S` or `H:M:S`, each
/// part a non-empty run of at most seven digits; anything else is an
/// unreadable duration.
pub open spec fn spec_duration_seconds(s: Seq<char>) -> Option<int> {
    let n = s.len() as int;
    let d1 = crate::range::first_at(s, 0, n, ':');
    if d1 == -1 {
        None
    } else {
        let d2 = crate::range::first_at(s, d1 + 1, n, ':');
        if d2 == -1 {
            if part_ok(s, 0, d1) && part_ok(s, d1 + 1, n) {
                Some(60 * crate::range::digits_value(s, 0, d1)
                    + crate::range::digits_value(s, d1 + 1, n))
            } else {
                None
            }
        } else {
            if part_ok(s, 0, d1) && part_ok(s, d1 + 1, d2) && part_ok(s, d2 + 1, n) {
                Some(3600 * crate::range::digits_value(s, 0, d1)
                    + 60 * crate::range::digits_value(s, d1 + 1, d2)
                    + crate::range::digits_value(s, d2 + 1, n))
            } else {
                None
            }
        }
    }
}

/// Checks one duration part and returns its value.
fn parse_part(s: &str, b: usize, e: usize) -> (r: Option<u64>)
    requires
        b <= e <= s@.len(),
    ensures
        r is Some <==> part_ok(s@, b as int, e as int),
        r matches Some(v) ==> v == crate::range::digits_value(s@, b as int, e as int)
            && v < 10000000,
{
    if b >= e || e - b > 7 {
        return None;
    }
    if !crate::range::all_digits_span(s, b, e) {
        return None;
    }
    Some(crate::range::digits_value_span(s, b, e))
}

/// Parses a recognized duration text: `"M:S"` or `"H:M:S"`. A malformed
/// text is a recoverable failure surfaced as `None`, which upstream reports
/// as an unknown duration.
pub fn parse_duration(s: &str) -> (r: Option<u64>)
    ensures
        r matches Some(v) ==> spec_duration_seconds(s@) == Some(v as int),
        r is None ==> spec_duration_seconds(s@) is None,
{
    let n = s.unicode_len();
    let d1 = match crate::range::find_char(s, 0, n, ':') {
        Some(d) => d,
        None => {
            return None;
        },
    };
    let p1 = match parse_part(s, 0, d1) {
        Some(v) => v,
        None => {
            return None;
        },
    };
    match crate::range::find_char(s, d1 + 1, n, ':') {
        None => {
            match parse_part(s, d1 + 1, n) {
                Some(p2) => Some(60 * p1 + p2),
                None => None,
            }
        },
        Some(d2) => {
            let p2 = match parse_part(s, d1 + 1, d2) {
                Some(v) => v,
                None => {
                    return None;
                },
            };
            match parse_part(s, d2 + 1, n) {
                Some(p3) => Some(3600 * p1 + 60 * p2 + p3),
                None => None,
            }
        },
    }
}


/// Folding more placements never un-claims a column.
proof fn lemma_cand_tpl_preserves_some(
    fraw: Seq<u8>, fw: int, t: Template, x: int, cur: Option<CandEntry>, yn: nat)
    requires
        cur is Some,
    ensures
        cand_tpl_upto(fraw, fw, t, x, cur, yn) is Some,
    decreases yn,
{
    if yn > 0 {
        lemma_cand_tpl_preserves_some(fraw, fw, t, x, cur, (yn - 1) as nat);
    }
}

/// A passing placement below `yn` claims the column.
proof fn lemma_cand_tpl_some_if_pass(
    fraw: Seq<u8>, fw: int, t: Template, x: int, cur: Option<CandEntry>, yn: nat, y: int)
    requires
        0 <= y < yn,
        tpl_score_at(fraw, fw, t, x, y).spec_passes_threshold(),
    ensures
        cand_tpl_upto(fraw, fw, t, x, cur, yn) is Some,
    decreases yn,
{
    if y == yn - 1 {
    } else {
        lemma_cand_tpl_some_if_pass(fraw, fw, t, x, cur, (yn - 1) as nat, y);
    }
}

/// Considering more templates never un-claims a column.
proof fn lemma_cand_upto_preserves_some(
    fraw: Seq<u8>, fw: int, fh: int, table: Seq<Template>, x: int, a: nat, b: nat)
    requires
        a <= b <= table.len(),
        cand_upto(fraw, fw, fh, table, x, a) is Some,
    ensures
        cand_upto(fraw, fw, fh, table, x, b) is Some,
    decreases b - a,
{
    if a < b {
        lemma_cand_upto_preserves_some(fraw, fw, fh, table, x, a, (b - 1) as nat);
        if tpl_fits(fw, fh, table[b - 1], x) {
            lemma_cand_tpl_preserves_some(
                fraw, fw, table[b - 1], x,
                cand_upto(fraw, fw, fh, table, x, (b - 1) as nat),
                yspan(fh, table[b - 1]));
        }
    }
}

/// The matcher never drops a readable column: when any placement of any
/// fitting template passes the acceptance threshold at column `x`, the
/// column is claimed by some candidate.
pub proof fn lemma_passing_column_is_claimed(
    fraw: Seq<u8>, fw: int, fh: int, table: Seq<Template>, x: int, ti: int, y: int)
    requires
        0 <= ti < table.len(),
        tpl_fits(fw, fh, table[ti], x),
        0 <= y < yspan(fh, table[ti]),
        tpl_score_at(fraw, fw, table[ti], x, y).spec_passes_threshold(),
    ensures
        column_candidate(fraw, fw, fh, table, x) is Some,
{
    lemma_cand_tpl_some_if_pass(
        fraw, fw, table[ti], x, cand_upto(fraw, fw, fh, table, x, ti as nat),
        yspan(fh, table[ti]), y);
    lemma_cand_upto_preserves_some(fraw, fw, fh, table, x, (ti + 1) as nat, table.len());
}

} // verus!
