//! Parsing of user-entered replay ranges.
//!
//! A range text such as `"1-4, 6-7, 9"` names which rows of the replay list
//! to record: comma-separated pieces, each a single row number or a
//! `lo-hi` span, every endpoint between 1 and 10. The parse expands the
//! pieces and returns the row numbers in ascending order; a malformed piece
//! is rejected so the operator can be asked again.

use vstd::prelude::*;

verus! {

/// Why a range text was rejected.
#[derive(Clone, Copy, Debug, PartialEq, Eq, Structural)]
pub enum RangeError {
    /// A piece is not a number or a `lo-hi` pair of numbers.
    Malformed,
    /// A piece's low endpoint exceeds its high endpoint.
    Inverted,
    /// An endpoint lies outside 1 through 10.
    OutOfBounds,
}

/// Whitespace that is trimmed around a piece.
pub open spec fn is_space(c: char) -> bool {
    c == ' ' || c == '\t' || c == '\r' || c == '\n'
}

/// A decimal digit.
pub open spec fn is_digit(c: char) -> bool {
    '0' <= c && c <= '9'
}

/// The value of a decimal digit.
pub open spec fn digit_val(c: char) -> int {
    c as int - '0' as int
}

/// The first index in `[from, to)` holding `sep`, or -1.
pub open spec fn first_at(s: Seq<char>, from: int, to: int, sep: char) -> int
    decreases to - from,
{
    if from >= to {
        -1
    } else if s[from] == sep {
        from
    } else {
        first_at(s, from + 1, to, sep)
    }
}

/// The first non-space index at or after `from` in `[from, to)`, or `to`.
pub open spec fn trim_lo(s: Seq<char>, from: int, to: int) -> int
    decreases to - from,
{
    if from >= to {
        to
    } else if is_space(s[from]) {
        trim_lo(s, from + 1, to)
    } else {
        from
    }
}

/// The end of the piece once trailing spaces in `[from, to)` are dropped.
pub open spec fn trim_hi(s: Seq<char>, from: int, to: int) -> int
    decreases to - from,
{
    if to <= from {
        from
    } else if is_space(s[to - 1]) {
        trim_hi(s, from, to - 1)
    } else {
        to
    }
}

/// Every character of `[from, to)` is a digit.
pub open spec fn all_digits(s: Seq<char>, from: int, to: int) -> bool {
    forall|i: int| from <= i < to ==> is_digit(#[trigger] s[i])
}

/// The decimal value of the digits in `[from, to)`.
pub open spec fn digits_value(s: Seq<char>, from: int, to: int) -> int
    decreases to - from,
{
    if to <= from {
        0
    } else {
        digits_value(s, from, to - 1) * 10 + digit_val(s[to - 1])
    }
}

/// The parse of `[from, to)` as an unsigned byte: an optional leading `+`,
/// then at least one digit, value at most 255.
pub open spec fn spec_parse_u8(s: Seq<char>, from: int, to: int) -> Option<u8> {
    let b = if from < to && s[from] == '+' { from + 1 } else { from };
    if b >= to {
        None
    } else if !all_digits(s, b, to) {
        None
    } else if digits_value(s, b, to) > 255 {
        None
    } else {
        Some(digits_value(s, b, to) as u8)
    }
}

/// The parse of one piece of the range text spanning `[from, to)`: after
/// trimming, either a single row number or `lo-hi` split at the first dash,
/// both endpoints in 1 through 10.
pub open spec fn spec_piece(s: Seq<char>, from: int, to: int) -> Result<(u8, u8), RangeError> {
    let b = trim_lo(s, from, to);
    let e = trim_hi(s, b, to);
    let d = first_at(s, b, e, '-');
    let bounds = if d == -1 {
        match spec_parse_u8(s, b, e) {
            Some(n) => Some((n, n)),
            None => None,
        }
    } else {
        match (spec_parse_u8(s, b, d), spec_parse_u8(s, d + 1, e)) {
            (Some(lo), Some(hi)) => Some((lo, hi)),
            _ => None,
        }
    };
    match bounds {
        None => Err(RangeError::Malformed),
        Some((lo, hi)) => if lo > hi {
            Err(RangeError::Inverted)
        } else if lo == 0 || lo > 10 {
            Err(RangeError::OutOfBounds)
        } else if hi > 10 {
            Err(RangeError::OutOfBounds)
        } else {
            Ok((lo, hi))
        },
    }
}

/// The parses of the comma-separated pieces of `[from, len)`, in order; the
/// first rejected piece decides the error.
pub open spec fn spec_pieces(s: Seq<char>, from: int) -> Result<Seq<(u8, u8)>, RangeError>
    decreases s.len() - from,
{
    let d = first_at(s, from, s.len() as int, ',');
    if from >= s.len() || d < from || d >= s.len() {
        match spec_piece(s, from, s.len() as int) {
            Ok(p) => Ok(seq![p]),
            Err(e) => Err(e),
        }
    } else {
        match spec_piece(s, from, d) {
            Err(e) => Err(e),
            Ok(p) => match spec_pieces(s, d + 1) {
                Err(e) => Err(e),
                Ok(ps) => Ok(seq![p] + ps),
            },
        }
    }
}

/// How many of the pieces cover the row number `w`.
pub open spec fn pairs_cover(ps: Seq<(u8, u8)>, w: int) -> int
    decreases ps.len(),
{
    if ps.len() == 0 {
        0
    } else {
        pairs_cover(ps.drop_last(), w)
            + if ps.last().0 <= w <= ps.last().1 { 1int } else { 0int }
    }
}

/// How many entries of the expansion equal `w`.
pub open spec fn count_occ(s: Seq<u8>, w: int) -> int
    decreases s.len(),
{
    if s.len() == 0 {
        0
    } else {
        count_occ(s.drop_last(), w) + if s.last() == w { 1int } else { 0int }
    }
}

/// Powers of ten.
pub open spec fn pow10(n: nat) -> int
    decreases n,
{
    if n == 0 { 1 } else { 10 * pow10((n - 1) as nat) }
}

/// Powers of ten are at least one and grow with the exponent.
pub proof fn lemma_pow10_pos(n: nat)
    ensures
        pow10(n) >= 1,
    decreases n,
{
    if n > 0 {
        lemma_pow10_pos((n - 1) as nat);
    }
}

/// A digit string's value is bounded by ten to its length.
pub proof fn lemma_digits_value_bound(s: Seq<char>, from: int, to: int)
    requires
        from <= to,
        all_digits(s, from, to),
    ensures
        0 <= digits_value(s, from, to) < pow10((to - from) as nat),
    decreases to - from,
{
    if from < to {
        lemma_digits_value_bound(s, from, to - 1);
        assert(is_digit(s[to - 1]));
        assert(0 <= digit_val(s[to - 1]) <= 9);
        let v = digits_value(s, from, to - 1);
        let p = pow10((to - 1 - from) as nat);
        assert(v * 10 <= (p - 1) * 10) by (nonlinear_arith)
            requires v <= p - 1;
        assert(v * 10 >= 0) by (nonlinear_arith)
            requires v >= 0;
        assert(pow10((to - from) as nat) == 10 * p);
    }
}

/// Ascending order.
pub open spec fn sorted(s: Seq<u8>) -> bool {
    forall|i: int, j: int| 0 <= i < j < s.len() ==> s[i] <= s[j]
}

/// Appending digits can only grow the value.
proof fn lemma_digits_value_grows(s: Seq<char>, from: int, mid: int, to: int)
    requires
        from <= mid <= to,
        all_digits(s, mid, to),
        digits_value(s, from, mid) >= 0,
    ensures
        digits_value(s, from, to) >= digits_value(s, from, mid),
    decreases to - mid,
{
    if mid < to {
        lemma_digits_value_grows(s, from, mid, to - 1);
        let v = digits_value(s, from, to - 1);
        assert(is_digit(s[to - 1]));
        assert(v * 10 >= v) by (nonlinear_arith)
            requires v >= 0;
    }
}

/// Whether every character of `[from, to)` is a digit.
pub(crate) fn all_digits_span(s: &str, from: usize, to: usize) -> (r: bool)
    requires
        from <= to <= s@.len(),
    ensures
        r == all_digits(s@, from as int, to as int),
{
    let mut i = from;
    while i < to
        invariant
            from <= i <= to <= s@.len(),
            all_digits(s@, from as int, i as int),
        decreases to - i,
    {
        let c = s.get_char(i);
        if c < '0' || c > '9' {
            assert(!is_digit(s@[i as int]));
            return false;
        }
        assert(is_digit(s@[i as int]));
        i = i + 1;
    }
    true
}

/// Parses the span `[from, to)` as a number of at most 255.
fn parse_u8_span(s: &str, from: usize, to: usize) -> (r: Option<u8>)
    requires
        from <= to <= s@.len(),
    ensures
        r == spec_parse_u8(s@, from as int, to as int),
{
    let mut b = from;
    if b < to && s.get_char(b) == '+' {
        b = b + 1;
    }
    if b >= to {
        return None;
    }
    if !all_digits_span(s, b, to) {
        return None;
    }
    let mut acc: u32 = 0;
    let mut i = b;
    while i < to
        invariant
            from <= b <= i <= to <= s@.len(),
            b < to,
            b as int == (if (from as int) < to && s@[from as int] == '+' {
                from as int + 1
            } else {
                from as int
            }),
            all_digits(s@, b as int, to as int),
            acc == digits_value(s@, b as int, i as int),
            acc <= 255,
        decreases to - i,
    {
        let c = s.get_char(i);
        assert(is_digit(s@[i as int]));
        let d: u32 = (c as u32) - ('0' as u32);
        proof {
            assert(d == digit_val(s@[i as int]));
        }
        let next: u32 = acc * 10 + d;
        if next > 255 {
            proof {
                assert(digits_value(s@, b as int, i as int + 1)
                    == digits_value(s@, b as int, i as int) * 10 + digit_val(s@[i as int]));
                lemma_digits_value_grows(s@, b as int, i as int + 1, to as int);
                assert(digits_value(s@, b as int, to as int) > 255);
                assert(spec_parse_u8(s@, from as int, to as int) is None);
            }
            return None;
        }
        acc = next;
        i = i + 1;
    }
    Some(acc as u8)
}

/// The first occurrence of `sep` in `[from, to)`, if any.
pub(crate) fn find_char(s: &str, from: usize, to: usize, sep: char) -> (r: Option<usize>)
    requires
        from <= to <= s@.len(),
    ensures
        match r {
            Some(d) => first_at(s@, from as int, to as int, sep) == d
                && from <= d < to,
            None => first_at(s@, from as int, to as int, sep) == -1,
        },
{
    let mut i = from;
    while i < to
        invariant
            from <= i <= to <= s@.len(),
            first_at(s@, from as int, to as int, sep)
                == first_at(s@, i as int, to as int, sep),
        decreases to - i,
    {
        if s.get_char(i) == sep {
            return Some(i);
        }
        i = i + 1;
    }
    None
}

/// The first index at or after `from` in `[from, to)` that is not
/// whitespace.
fn skip_spaces(s: &str, from: usize, to: usize) -> (r: usize)
    requires
        from <= to <= s@.len(),
    ensures
        r == trim_lo(s@, from as int, to as int),
        from <= r <= to,
{
    let mut b = from;
    loop
        invariant
            from <= b <= to <= s@.len(),
            trim_lo(s@, from as int, to as int) == trim_lo(s@, b as int, to as int),
        decreases to - b,
    {
        if b >= to {
            return b;
        }
        let c = s.get_char(b);
        if !(c == ' ' || c == '\t' || c == '\r' || c == '\n') {
            assert(!is_space(s@[b as int]));
            return b;
        }
        assert(is_space(s@[b as int]));
        b = b + 1;
    }
}

/// The end of `[from, to)` once trailing whitespace is dropped.
fn drop_trailing_spaces(s: &str, from: usize, to: usize) -> (r: usize)
    requires
        from <= to <= s@.len(),
    ensures
        r == trim_hi(s@, from as int, to as int),
        from <= r <= to,
{
    let mut e = to;
    loop
        invariant
            from <= e <= to <= s@.len(),
            trim_hi(s@, from as int, to as int) == trim_hi(s@, from as int, e as int),
        decreases e,
    {
        if e <= from {
            return e;
        }
        let c = s.get_char(e - 1);
        if !(c == ' ' || c == '\t' || c == '\r' || c == '\n') {
            assert(!is_space(s@[e - 1]));
            return e;
        }
        assert(is_space(s@[e - 1]));
        e = e - 1;
    }
}

/// The value of a span of at most seven digits.
pub(crate) fn digits_value_span(s: &str, from: usize, to: usize) -> (r: u64)
    requires
        from <= to <= s@.len(),
        to - from <= 7,
        all_digits(s@, from as int, to as int),
    ensures
        r == digits_value(s@, from as int, to as int),
        r < 10000000,
{
    proof {
        reveal_with_fuel(pow10, 9);
    }
    let mut acc: u32 = 0;
    let mut i = from;
    while i < to
        invariant
            from <= i <= to <= s@.len(),
            to - from <= 7,
            all_digits(s@, from as int, to as int),
            acc == digits_value(s@, from as int, i as int),
            acc < 10000000,
        decreases to - i,
    {
        let c = s.get_char(i);
        assert(is_digit(s@[i as int]));
        let d: u32 = (c as u32) - ('0' as u32);
        proof {
            assert(d == digit_val(s@[i as int]));
            lemma_digits_value_bound(s@, from as int, i as int + 1);
            reveal_with_fuel(pow10, 9);
            assert(pow10((i + 1 - from) as nat) <= pow10(7nat)) by {
                lemma_pow10_le((i + 1 - from) as nat, 7nat);
            };
        }
        acc = acc * 10 + d;
        i = i + 1;
    }
    proof {
        lemma_digits_value_bound(s@, from as int, to as int);
        lemma_pow10_le((to - from) as nat, 7nat);
        reveal_with_fuel(pow10, 9);
    }
    acc as u64
}

/// Powers of ten grow with the exponent.
pub proof fn lemma_pow10_le(a: nat, b: nat)
    requires
        a <= b,
    ensures
        pow10(a) <= pow10(b),
    decreases b,
{
    if a < b {
        lemma_pow10_le(a, (b - 1) as nat);
        lemma_pow10_pos((b - 1) as nat);
    }
}

/// The parse of one piece spanning `[from, to)`.
fn parse_piece(s: &str, from: usize, to: usize) -> (r: Result<(u8, u8), RangeError>)
    requires
        from <= to <= s@.len(),
    ensures
        r == spec_piece(s@, from as int, to as int),
{
    let b = skip_spaces(s, from, to);
    let e = drop_trailing_spaces(s, b, to);
    let bounds: Option<(u8, u8)> = match find_char(s, b, e, '-') {
        None => match parse_u8_span(s, b, e) {
            Some(n) => Some((n, n)),
            None => None,
        },
        Some(d) => {
            let lo = parse_u8_span(s, b, d);
            let hi = parse_u8_span(s, d + 1, e);
            match (lo, hi) {
                (Some(lo), Some(hi)) => Some((lo, hi)),
                _ => None,
            }
        },
    };
    match bounds {
        None => Err(RangeError::Malformed),
        Some((lo, hi)) => if lo > hi {
            Err(RangeError::Inverted)
        } else if lo == 0 || lo > 10 {
            Err(RangeError::OutOfBounds)
        } else if hi > 10 {
            Err(RangeError::OutOfBounds)
        } else {
            Ok((lo, hi))
        },
    }
}

/// Appending one value bumps exactly its own count.
proof fn lemma_count_push(s: Seq<u8>, v: u8, w: int)
    ensures
        count_occ(s.push(v), w) == count_occ(s, w) + if v == w { 1int } else { 0int },
{
    assert(s.push(v).drop_last() =~= s);
    assert(s.push(v).last() == v);
}

/// Pieces whose endpoints lie in 1 through 10 cover nothing outside.
proof fn lemma_pairs_cover_outside(ps: Seq<(u8, u8)>, w: int)
    requires
        forall|k: int| 0 <= k < ps.len() ==> 1 <= (#[trigger] ps[k]).0 <= ps[k].1 <= 10,
        w < 1 || w > 10,
    ensures
        pairs_cover(ps, w) == 0,
    decreases ps.len(),
{
    if ps.len() > 0 {
        assert(ps.last() == ps[ps.len() - 1]);
        lemma_pairs_cover_outside(ps.drop_last(), w);
    }
}

/// Expands a replay-range text such as `"1-4, 6-7, 9"` into the named row
/// numbers in ascending order. Every piece must be a row number or a
/// `lo-hi` span with endpoints in 1 through 10; the first offending piece
/// decides the error, so the operator can be asked for the text again.
pub fn parse_replay_range(line: &str) -> (r: Result<Vec<u8>, RangeError>)
    ensures
        r matches Err(e) ==> spec_pieces(line@, 0) == Err::<Seq<(u8, u8)>, RangeError>(e),
        r matches Ok(v) ==> {
            &&& spec_pieces(line@, 0) is Ok
            &&& sorted(v@)
            &&& forall|i: int| 0 <= i < v@.len() ==> 1 <= #[trigger] v@[i] <= 10
            &&& forall|w: int|
                count_occ(v@, w) == pairs_cover(spec_pieces(line@, 0)->Ok_0, w)
        },
{
    let n = line.unicode_len();
    let mut pairs: Vec<(u8, u8)> = Vec::new();
    let mut from: usize = 0;
    loop
        invariant_except_break
            spec_pieces(line@, 0) == (match spec_pieces(line@, from as int) {
                Ok::<Seq<(u8, u8)>, RangeError>(rest) =>
                    Ok::<Seq<(u8, u8)>, RangeError>(pairs@ + rest),
                Err(e) => Err::<Seq<(u8, u8)>, RangeError>(e),
            }),
        invariant
            from <= n == line@.len(),
            forall|k: int| 0 <= k < pairs@.len()
                ==> 1 <= (#[trigger] pairs@[k]).0 <= pairs@[k].1 <= 10,
        ensures
            spec_pieces(line@, 0) == Ok::<Seq<(u8, u8)>, RangeError>(pairs@),
            forall|k: int| 0 <= k < pairs@.len()
                ==> 1 <= (#[trigger] pairs@[k]).0 <= pairs@[k].1 <= 10,
        decreases n - from,
    {
        let ghost pairs_before = pairs@;
        match find_char(line, from, n, ',') {
            Some(d) => {
                match parse_piece(line, from, d) {
                    Err(e) => {
                        return Err(e);
                    },
                    Ok(p) => {
                        pairs.push(p);
                        proof {
                            assert(pairs@ =~= pairs_before + seq![p]);
                            let ev = spec_pieces(line@, d + 1);
                            if ev is Ok {
                                assert((pairs_before + (seq![p] + ev->Ok_0))
                                    =~= (pairs@ + ev->Ok_0));
                            }
                        }
                        from = d + 1;
                    },
                }
            },
            None => {
                match parse_piece(line, from, n) {
                    Err(e) => {
                        return Err(e);
                    },
                    Ok(p) => {
                        pairs.push(p);
                        proof {
                            assert(pairs@ =~= pairs_before + seq![p]);
                        }
                        break;
                    },
                }
            },
        }
    }
    let mut result: Vec<u8> = Vec::new();
    proof {
        assert forall|w: int| w < 1 implies pairs_cover(pairs@, w) == 0 by {
            lemma_pairs_cover_outside(pairs@, w);
        };
    }
    let mut v: u8 = 1;
    while v <= 10
        invariant
            1 <= v <= 11,
            forall|k: int| 0 <= k < pairs@.len()
                ==> 1 <= (#[trigger] pairs@[k]).0 <= pairs@[k].1 <= 10,
            sorted(result@),
            forall|i: int| 0 <= i < result@.len() ==> 1 <= #[trigger] result@[i] < v,
            forall|w: int| w < v ==> count_occ(result@, w) == pairs_cover(pairs@, w),
            forall|w: int| w >= v ==> count_occ(result@, w) == 0,
        decreases 11 - v,
    {
        let mut k: usize = 0;
        while k < pairs.len()
            invariant
                1 <= v <= 10,
                k <= pairs@.len(),
                forall|kk: int| 0 <= kk < pairs@.len()
                    ==> 1 <= (#[trigger] pairs@[kk]).0 <= pairs@[kk].1 <= 10,
                sorted(result@),
                forall|i: int| 0 <= i < result@.len() ==> 1 <= #[trigger] result@[i] <= v,
                forall|w: int| w < v ==> count_occ(result@, w) == pairs_cover(pairs@, w),
                count_occ(result@, v as int)
                    == pairs_cover(pairs@.subrange(0, k as int), v as int),
                forall|w: int| w > v ==> count_occ(result@, w) == 0,
            decreases pairs@.len() - k,
        {
            let pair = pairs[k];
            proof {
                assert(pairs@.subrange(0, k as int + 1).drop_last()
                    =~= pairs@.subrange(0, k as int));
                assert(pairs@.subrange(0, k as int + 1).last() == pairs@[k as int]);
            }
            if pair.0 <= v && v <= pair.1 {
                let ghost result_before = result@;
                result.push(v);
                proof {
                    assert forall|w: int| true
                        implies count_occ(result@, w)
                            == count_occ(result_before, w)
                                + (if v == w { 1int } else { 0int }) by {
                        lemma_count_push(result_before, v, w);
                    };
                    assert forall|i: int, j: int| 0 <= i < j < result@.len()
                        implies result@[i] <= result@[j] by {
                        if j == result@.len() - 1 {
                            assert(result@[i] == result_before[i]);
                            assert(result@[j] == v);
                        } else {
                            assert(result@[i] == result_before[i]);
                            assert(result@[j] == result_before[j]);
                        }
                    };
                }
            }
            k = k + 1;
        }
        proof {
            assert(pairs@.subrange(0, pairs@.len() as int) =~= pairs@);
        }
        v = v + 1;
    }
    proof {
        assert forall|w: int| true
            implies count_occ(result@, w) == pairs_cover(pairs@, w) by {
            if w < 1 || w > 10 {
                lemma_pairs_cover_outside(pairs@, w);
            }
        };
    }
    Ok(result)
}

} // verus!
