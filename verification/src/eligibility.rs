//! Eligibility of submissions for the active competition, and selection
//! of the best eligible submission per mods combination.
//!
//! A submission is eligible when it was set on the competition's map, did
//! not fail, was created inside the competition window, and uses none of
//! the excluded modifiers. Per distinct mods value of the eligible
//! submissions one winner survives: the highest raw score, ties going to
//! the earliest submission.

use vstd::prelude::*;

use crate::model::{Competition, Grade, Submission};

verus! {

/// Bit of the score-doubling modifier, excluded from ranking because it
/// changes the scoring formula.
pub const SCORE_V2: u32 = 0x2000_0000;

/// Whether `s` counts for competition `c`; `excluded_mods` is the bitmask
/// of modifiers that disqualify a submission.
pub open spec fn spec_eligible(s: Submission, c: Competition, excluded_mods: u32) -> bool {
    &&& s.map_id == c.map_id
    &&& s.grade != Grade::F
    &&& s.created_at >= c.start_date
    &&& s.mods & excluded_mods == 0
}

/// Strict preference between submissions of one mods group: higher raw
/// score first, earlier submission on equal scores.
pub open spec fn spec_better(a: Submission, b: Submission) -> bool {
    ||| a.raw_score > b.raw_score
    ||| (a.raw_score == b.raw_score && a.created_at < b.created_at)
}

/// The surviving submission of mods group `m` among the eligible
/// submissions of `subs`, scanning left to right.
pub open spec fn spec_group_winner(
    subs: Seq<Submission>,
    c: Competition,
    excluded_mods: u32,
    m: u32,
) -> Option<Submission>
    decreases subs.len(),
{
    if subs.len() == 0 {
        None
    } else {
        let prev = spec_group_winner(subs.drop_last(), c, excluded_mods, m);
        let s = subs.last();
        if spec_eligible(s, c, excluded_mods) && s.mods == m {
            match prev {
                None => Some(s),
                Some(w) => if spec_better(s, w) {
                    Some(s)
                } else {
                    Some(w)
                },
            }
        } else {
            prev
        }
    }
}

/// The distinct mods values of the eligible submissions of `subs`, in
/// order of first appearance.
pub open spec fn spec_mods_list(subs: Seq<Submission>, c: Competition, excluded_mods: u32) -> Seq<
    u32,
>
    decreases subs.len(),
{
    if subs.len() == 0 {
        Seq::empty()
    } else {
        let prev = spec_mods_list(subs.drop_last(), c, excluded_mods);
        let s = subs.last();
        if spec_eligible(s, c, excluded_mods) && !prev.contains(s.mods) {
            prev.push(s.mods)
        } else {
            prev
        }
    }
}

/// The selection result: one group winner per distinct mods value of the
/// eligible submissions, in order of the mods value's first appearance.
pub open spec fn spec_select(subs: Seq<Submission>, c: Competition, excluded_mods: u32) -> Seq<
    Submission,
> {
    let mods = spec_mods_list(subs, c, excluded_mods);
    Seq::new(mods.len(), |i: int| spec_group_winner(subs, c, excluded_mods, mods[i])->0)
}

/// A mods group has a winner exactly when the group appears in the mods
/// list.
pub proof fn lemma_winner_iff_listed(subs: Seq<Submission>, c: Competition, x: u32, m: u32)
    ensures
        spec_group_winner(subs, c, x, m) is Some <==> spec_mods_list(subs, c, x).contains(m),
    decreases subs.len(),
{
    if subs.len() > 0 {
        lemma_winner_iff_listed(subs.drop_last(), c, x, m);
        let prev = spec_mods_list(subs.drop_last(), c, x);
        let s = subs.last();
        if spec_eligible(s, c, x) && s.mods == m {
            if !prev.contains(m) {
                assert(spec_mods_list(subs, c, x).last() == m);
            }
        } else {
            if spec_mods_list(subs, c, x).contains(m) {
                let i = choose|i: int| 0 <= i < spec_mods_list(subs, c, x).len()
                    && spec_mods_list(subs, c, x)[i] == m;
                if spec_eligible(s, c, x) && !prev.contains(s.mods) {
                    assert(i < prev.len());
                    assert(prev[i] == m);
                }
            } else {
                if prev.contains(m) {
                    let i = choose|i: int| 0 <= i < prev.len() && prev[i] == m;
                    assert(spec_mods_list(subs, c, x)[i] == m);
                }
            }
        }
    }
}

/// A group winner is itself an eligible submission of its group, drawn
/// from the input.
pub proof fn lemma_winner_is_eligible(subs: Seq<Submission>, c: Competition, x: u32, m: u32)
    requires
        spec_group_winner(subs, c, x, m) is Some,
    ensures
        spec_eligible(spec_group_winner(subs, c, x, m)->0, c, x),
        spec_group_winner(subs, c, x, m)->0.mods == m,
        subs.contains(spec_group_winner(subs, c, x, m)->0),
    decreases subs.len(),
{
    let w = spec_group_winner(subs, c, x, m)->0;
    let s = subs.last();
    if spec_eligible(s, c, x) && s.mods == m {
        if spec_group_winner(subs.drop_last(), c, x, m) is Some && w != s {
            lemma_winner_is_eligible(subs.drop_last(), c, x, m);
            assert(subs.drop_last().contains(w));
            let i = choose|i: int| 0 <= i < subs.drop_last().len() && subs.drop_last()[i] == w;
            assert(subs[i] == w);
        } else {
            assert(subs[subs.len() - 1] == s);
        }
    } else {
        lemma_winner_is_eligible(subs.drop_last(), c, x, m);
        assert(subs.drop_last().contains(w));
        let i = choose|i: int| 0 <= i < subs.drop_last().len() && subs.drop_last()[i] == w;
        assert(subs[i] == w);
    }
}

/// The group winner scores at least as high as every eligible submission
/// sharing its mods value.
pub proof fn lemma_winner_dominates(
    subs: Seq<Submission>,
    c: Competition,
    x: u32,
    j: int,
)
    requires
        0 <= j < subs.len(),
        spec_eligible(subs[j], c, x),
    ensures
        spec_group_winner(subs, c, x, subs[j].mods) is Some,
        spec_group_winner(subs, c, x, subs[j].mods)->0.raw_score >= subs[j].raw_score,
    decreases subs.len(),
{
    let m = subs[j].mods;
    if j == subs.len() - 1 {
        assert(subs.last() == subs[j]);
    } else {
        assert(subs.drop_last()[j] == subs[j]);
        lemma_winner_dominates(subs.drop_last(), c, x, j);
    }
}

/// Every eligible submission is dominated by a selected winner of its
/// mods group: the selection contains, for each eligible submission's
/// mods value, a winner whose raw score is at least as high.
pub proof fn lemma_select_dominates(subs: Seq<Submission>, c: Competition, x: u32, j: int)
    requires
        0 <= j < subs.len(),
        spec_eligible(subs[j], c, x),
    ensures
        exists|k: int|
            0 <= k < spec_select(subs, c, x).len() && spec_select(subs, c, x)[k].mods
                == subs[j].mods && spec_select(subs, c, x)[k].raw_score >= subs[j].raw_score,
{
    let m = subs[j].mods;
    lemma_winner_dominates(subs, c, x, j);
    lemma_winner_iff_listed(subs, c, x, m);
    lemma_winner_is_eligible(subs, c, x, m);
    let mods = spec_mods_list(subs, c, x);
    let k = choose|k: int| 0 <= k < mods.len() && mods[k] == m;
    assert(spec_select(subs, c, x)[k] == spec_group_winner(subs, c, x, m)->0);
}

/// A submission fails eligibility when any single requirement fails:
/// set before the competition started, a failed play, an excluded
/// modifier, or another map.
pub proof fn lemma_ineligible_reasons(s: Submission, c: Competition, x: u32)
    ensures
        s.created_at < c.start_date ==> !spec_eligible(s, c, x),
        s.grade == Grade::F ==> !spec_eligible(s, c, x),
        s.mods & x != 0 ==> !spec_eligible(s, c, x),
        s.map_id != c.map_id ==> !spec_eligible(s, c, x),
{
}

/// Executable eligibility test.
pub fn is_eligible(s: &Submission, c: &Competition, excluded_mods: u32) -> (r: bool)
    ensures
        r == spec_eligible(*s, *c, excluded_mods),
{
    s.map_id == c.map_id && !matches!(s.grade, Grade::F) && s.created_at >= c.start_date && s.mods
        & excluded_mods == 0
}

/// Select, per mods value, the best eligible submission of `subs`.
///
/// The result holds one submission per distinct mods value among the
/// eligible submissions of `subs` (in order of first appearance), namely
/// the one with the highest raw score, ties broken in favour of the
/// earliest `created_at`, then the earliest position in `subs`.
pub fn select_best_per_mods(
    subs: &Vec<Submission>,
    c: &Competition,
    excluded_mods: u32,
) -> (r: Vec<Submission>)
    ensures
        r@ == spec_select(subs@, *c, excluded_mods),
{
    let mut r: Vec<Submission> = Vec::new();
    let mut i: usize = 0;
    while i < subs.len()
        invariant
            i <= subs.len(),
            spec_mods_list(subs@.take(i as int), *c, excluded_mods) =~= r@.map_values(
                |s: Submission| s.mods,
            ),
            forall|k: int| #![all_triggers]
                0 <= k < r.len() ==> spec_group_winner(subs@.take(i as int), *c, excluded_mods, r@[k].mods)
                    == Some(r@[k]),
            forall|k1: int, k2: int| 0 <= k1 < k2 < r.len() ==> r@[k1].mods != r@[k2].mods,
        decreases subs.len() - i,
    {
        let s = subs[i];
        let ghost prefix = subs@.take(i as int);
        let ghost next_prefix = subs@.take(i + 1 as int);
        proof {
            assert(next_prefix.drop_last() =~= prefix);
            assert(next_prefix.last() == s);
        }
        if is_eligible(&s, c, excluded_mods) {
            let mut j: usize = 0;
            let mut found = false;
            while j < r.len() && !found
                invariant
                    j <= r.len(),
                    !found ==> forall|k: int| 0 <= k < j ==> r@[k].mods != s.mods,
                    found ==> j < r.len() && r@[j as int].mods == s.mods,
                decreases r.len() - j + (if found { 0int } else { 1int }),
            {
                if r[j].mods == s.mods {
                    found = true;
                } else {
                    j += 1;
                }
            }
            if found {
                proof {
                    assert(spec_mods_list(prefix, *c, excluded_mods).contains(s.mods)) by {
                        assert(r@.map_values(|t: Submission| t.mods)[j as int] == s.mods);
                    }
                }
                if is_better(&s, &r[j]) {
                    r.set(j, s);
                }
                proof {
                    assert(spec_mods_list(next_prefix, *c, excluded_mods) =~= r@.map_values(
                        |t: Submission| t.mods,
                    ));
                    assert forall|k: int| #![all_triggers]
                        0 <= k < r.len() implies spec_group_winner(
                        next_prefix,
                        *c,
                        excluded_mods,
                        r@[k].mods,
                    ) == Some(r@[k]) by {
                        if k != j {
                            assert(r@[k].mods != s.mods);
                        }
                    }
                }
            } else {
                proof {
                    assert(!spec_mods_list(prefix, *c, excluded_mods).contains(s.mods)) by {
                        if spec_mods_list(prefix, *c, excluded_mods).contains(s.mods) {
                            let k = choose|k: int| 0 <= k < spec_mods_list(prefix, *c, excluded_mods).len()
                                && spec_mods_list(prefix, *c, excluded_mods)[k] == s.mods;
                            assert(r@.map_values(|t: Submission| t.mods)[k] == s.mods);
                        }
                    }
                    lemma_winner_iff_listed(prefix, *c, excluded_mods, s.mods);
                }
                r.push(s);
                proof {
                    assert(spec_mods_list(next_prefix, *c, excluded_mods) =~= r@.map_values(
                        |t: Submission| t.mods,
                    ));
                    assert forall|k: int| #![all_triggers]
                        0 <= k < r.len() implies spec_group_winner(
                        next_prefix,
                        *c,
                        excluded_mods,
                        r@[k].mods,
                    ) == Some(r@[k]) by {
                        if k < r.len() - 1 {
                            assert(r@[k].mods != s.mods);
                        }
                    }
                }
            }
        } else {
            proof {
                assert(spec_mods_list(next_prefix, *c, excluded_mods) =~= r@.map_values(
                    |t: Submission| t.mods,
                ));
            }
        }
        i += 1;
    }
    proof {
        assert(subs@.take(subs@.len() as int) =~= subs@);
        let mods = spec_mods_list(subs@, *c, excluded_mods);
        assert(r@.len() == mods.len()) by {
            assert(mods =~= r@.map_values(|s: Submission| s.mods));
        }
        assert forall|k: int| 0 <= k < r.len() implies r@[k] == spec_select(
            subs@,
            *c,
            excluded_mods,
        )[k] by {
            assert(r@.map_values(|s: Submission| s.mods)[k] == r@[k].mods);
        }
        assert(r@ =~= spec_select(subs@, *c, excluded_mods));
    }
    r
}

/// Executable form of [`spec_better`].
pub fn is_better(a: &Submission, b: &Submission) -> (r: bool)
    ensures
        r == spec_better(*a, *b),
{
    a.raw_score > b.raw_score || (a.raw_score == b.raw_score && a.created_at < b.created_at)
}

} // verus!
