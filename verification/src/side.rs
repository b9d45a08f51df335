//! Side resolution: which of the two teams the operator is on.
//!
//! Each side maps to a fixed ordered set of six player-focus keys. Probing
//! every key yields a badge-correlation score per player; a side's strength
//! is its best score, and the side with the globally largest maximum wins,
//! the first side on ties.

use vstd::prelude::*;
use crate::input::Key;
use crate::score::{Score, lemma_score_le_trans};

verus! {

/// One of the two teams.
#[derive(Clone, Copy, Debug, PartialEq, Eq, Structural)]
pub enum Side {
    /// The side whose players sit on the first six focus keys.
    Blue,
    /// The side whose players sit on the last six focus keys.
    Red,
}

/// Players per side.
pub const TEAM_SIZE: usize = 6;

impl Side {
    /// The ordered player-focus keys of this side.
    pub open spec fn spec_focus_keys(self) -> Seq<Key> {
        match self {
            Side::Blue => seq![Key::F1, Key::F2, Key::F3, Key::F4, Key::F5, Key::F6],
            Side::Red => seq![Key::F7, Key::F8, Key::F9, Key::F10, Key::F11, Key::F12],
        }
    }

    /// The ordered player-focus keys of this side.
    pub fn focus_keys(self) -> (r: Vec<Key>)
        ensures
            r@ == self.spec_focus_keys(),
            r@.len() == TEAM_SIZE,
    {
        let r = match self {
            Side::Blue => vec![Key::F1, Key::F2, Key::F3, Key::F4, Key::F5, Key::F6],
            Side::Red => vec![Key::F7, Key::F8, Key::F9, Key::F10, Key::F11, Key::F12],
        };
        proof {
            assert(r@ =~= self.spec_focus_keys());
        }
        r
    }
}

/// Every score of the sequence is well-formed.
pub open spec fn scores_wf(s: Seq<Score>) -> bool {
    forall|i: int| 0 <= i < s.len() ==> (#[trigger] s[i]).wf()
}

/// The largest score of a non-empty sequence; the earliest one on ties.
pub open spec fn max_score(s: Seq<Score>) -> Score
    decreases s.len(),
{
    if s.len() <= 1 {
        s[0]
    } else {
        let m = max_score(s.drop_last());
        if m.spec_lt(s.last()) {
            s.last()
        } else {
            m
        }
    }
}

/// The maximum is one of the scores and dominates them all.
pub proof fn lemma_max_score_props(s: Seq<Score>)
    requires
        s.len() >= 1,
        scores_wf(s),
    ensures
        exists|i: int| 0 <= i < s.len() && max_score(s) == s[i],
        forall|i: int| 0 <= i < s.len() ==> (#[trigger] s[i]).spec_le(max_score(s)),
        max_score(s).wf(),
    decreases s.len(),
{
    if s.len() == 1 {
        assert(max_score(s) == s[0]);
    } else {
        let prefix = s.drop_last();
        assert(scores_wf(prefix)) by {
            assert forall|i: int| 0 <= i < prefix.len()
                implies (#[trigger] prefix[i]).wf() by {
                assert(prefix[i] == s[i]);
            };
        };
        lemma_max_score_props(prefix);
        let m = max_score(prefix);
        let last = s.last();
        assert(last == s[s.len() - 1]);
        if m.spec_lt(last) {
            assert forall|i: int| 0 <= i < s.len()
                implies (#[trigger] s[i]).spec_le(max_score(s)) by {
                if i < s.len() - 1 {
                    assert(s[i] == prefix[i]);
                    lemma_score_le_trans(s[i], m, last);
                }
            };
        } else {
            assert forall|i: int| 0 <= i < s.len()
                implies (#[trigger] s[i]).spec_le(max_score(s)) by {
                if i < s.len() - 1 {
                    assert(s[i] == prefix[i]);
                }
            };
        }
    }
}

/// The largest score of a non-empty list.
fn max_of(scores: &Vec<Score>) -> (r: Score)
    requires
        scores@.len() >= 1,
        scores_wf(scores@),
    ensures
        r == max_score(scores@),
        r.wf(),
{
    let mut best: Score = scores[0];
    let mut i: usize = 1;
    while i < scores.len()
        invariant
            1 <= i <= scores@.len(),
            scores_wf(scores@),
            best == max_score(scores@.subrange(0, i as int)),
            best.wf(),
        decreases scores@.len() - i,
    {
        proof {
            assert(scores@.subrange(0, i as int + 1).drop_last()
                =~= scores@.subrange(0, i as int));
            assert(scores@.subrange(0, i as int + 1).last() == scores@[i as int]);
        }
        let s = scores[i];
        if best.lt(&s) {
            best = s;
        }
        i = i + 1;
    }
    proof {
        assert(scores@.subrange(0, scores@.len() as int) =~= scores@);
    }
    best
}

/// Picks the side the operator is on from the twelve probe scores: the side
/// whose best per-player badge correlation is globally largest, the first
/// side on ties. The winning side's maximum dominates every probe of the
/// other side.
pub fn resolve_side(blue_scores: &Vec<Score>, red_scores: &Vec<Score>) -> (r: Side)
    requires
        blue_scores@.len() == TEAM_SIZE,
        red_scores@.len() == TEAM_SIZE,
        scores_wf(blue_scores@),
        scores_wf(red_scores@),
    ensures
        r == Side::Blue <==> max_score(red_scores@).spec_le(max_score(blue_scores@)),
        r == Side::Blue ==> forall|i: int| 0 <= i < red_scores@.len()
            ==> (#[trigger] red_scores@[i]).spec_le(max_score(blue_scores@)),
        r == Side::Red ==> forall|i: int| 0 <= i < blue_scores@.len()
            ==> (#[trigger] blue_scores@[i]).spec_le(max_score(red_scores@)),
{
    let bm = max_of(blue_scores);
    let rm = max_of(red_scores);
    proof {
        lemma_max_score_props(blue_scores@);
        lemma_max_score_props(red_scores@);
    }
    if bm.lt(&rm) {
        proof {
            assert forall|i: int| 0 <= i < blue_scores@.len()
                implies (#[trigger] blue_scores@[i]).spec_le(max_score(red_scores@)) by {
                lemma_score_le_trans(blue_scores@[i], bm, rm);
            };
        }
        Side::Red
    } else {
        proof {
            assert forall|i: int| 0 <= i < red_scores@.len()
                implies (#[trigger] red_scores@[i]).spec_le(max_score(blue_scores@)) by {
                lemma_score_le_trans(red_scores@[i], rm, bm);
            };
        }
        Side::Blue
    }
}

} // verus!
