//! The persisted leaderboard of one competition and the merge of newly
//! selected submissions into it.
//!
//! The leaderboard holds at most one entry per participant: the best
//! submission known so far. A candidate replaces a stored entry only when
//! its raw score strictly exceeds the stored one; a participant without an
//! entry gets the candidate inserted. A stored raw score therefore never
//! decreases, whatever candidates arrive in whatever order.

use vstd::prelude::*;

use crate::assoc::{
    assoc_has_key, assoc_lookup, assoc_unique_keys, lemma_assoc_lookup_at,
    lemma_assoc_lookup_some, lemma_assoc_lookup_update,
};
use crate::model::Submission;

verus! {

/// What one merge step keeps for a participant: the stored entry, unless
/// the candidate strictly beats it.
pub open spec fn spec_merge_rule(stored: Option<Submission>, cand: Submission) -> Submission {
    match stored {
        None => cand,
        Some(s) => if cand.raw_score > s.raw_score {
            cand
        } else {
            s
        },
    }
}

/// The entry table after merging one candidate, keyed by the candidate's
/// `participant_id`.
pub open spec fn spec_merge_one(entries: Seq<(u32, Submission)>, cand: Submission) -> Seq<
    (u32, Submission),
> {
    let pid = cand.participant_id;
    if assoc_lookup(entries, pid) is None {
        entries.push((pid, cand))
    } else {
        Seq::new(
            entries.len(),
            |i: int|
                if entries[i].0 == pid {
                    (pid, spec_merge_rule(Some(entries[i].1), cand))
                } else {
                    entries[i]
                },
        )
    }
}

/// The entry table after merging a sequence of candidates in order.
pub open spec fn spec_merge_all(entries: Seq<(u32, Submission)>, cands: Seq<Submission>) -> Seq<
    (u32, Submission),
>
    decreases cands.len(),
{
    if cands.len() == 0 {
        entries
    } else {
        spec_merge_one(spec_merge_all(entries, cands.drop_last()), cands.last())
    }
}

/// The best-known submissions for one competition map, at most one entry
/// per participant.
pub struct Leaderboard {
    /// The competition map these entries belong to.
    pub map_id: u32,
    /// The entry table; methods keep its keys unique.
    pub entries: Vec<(u32, Submission)>,
}

impl Leaderboard {
    /// The entry table, in insertion order.
    pub open spec fn view(self) -> Seq<(u32, Submission)> {
        self.entries@
    }

    /// At most one entry per participant.
    pub open spec fn wf(self) -> bool {
        assoc_unique_keys(self@)
    }

    /// The stored best submission of `participant_id`, if any.
    pub open spec fn spec_best(self, participant_id: u32) -> Option<Submission> {
        assoc_lookup(self@, participant_id)
    }

    /// An empty leaderboard for `map_id`.
    pub fn new(map_id: u32) -> (r: Leaderboard)
        ensures
            r.wf(),
            r.map_id == map_id,
            r@ =~= Seq::<(u32, Submission)>::empty(),
    {
        Leaderboard { map_id, entries: Vec::new() }
    }

    /// Rebuild a leaderboard from stored rows, e.g. read back from the
    /// persistent store. Rows repeating a participant are merged by the
    /// same rule as live candidates, so the result is well-formed
    /// whatever the store handed back.
    pub fn from_rows(map_id: u32, rows: Vec<Submission>) -> (r: Leaderboard)
        ensures
            r.wf(),
            r.map_id == map_id,
            r@ == spec_merge_all(Seq::<(u32, Submission)>::empty(), rows@),
    {
        let mut board = Leaderboard::new(map_id);
        board.merge_all(&rows);
        proof {
            assert(board@ == spec_merge_all(Seq::<(u32, Submission)>::empty(), rows@));
        }
        board
    }

    /// The number of entries.
    pub fn len(&self) -> (n: usize)
        ensures
            n == self@.len(),
    {
        self.entries.len()
    }

    /// The entry at position `i`, as `(participant_id, submission)`.
    pub fn entry_at(&self, i: usize) -> (r: (u32, Submission))
        requires
            i < self@.len(),
        ensures
            r == self@[i as int],
    {
        self.entries[i]
    }

    /// The stored best submission of `participant_id`, if any.
    pub fn best_of(&self, participant_id: u32) -> (r: Option<Submission>)
        requires
            self.wf(),
        ensures
            r == self.spec_best(participant_id),
    {
        let mut i: usize = 0;
        while i < self.entries.len()
            invariant
                self.wf(),
                i <= self@.len(),
                forall|k: int| 0 <= k < i ==> self@[k].0 != participant_id,
            decreases self@.len() - i,
        {
            if self.entries[i].0 == participant_id {
                proof {
                    lemma_assoc_lookup_at(self@, participant_id, i as int);
                }
                return Some(self.entries[i].1);
            }
            i += 1;
        }
        proof {
            lemma_assoc_lookup_some(self@, participant_id);
        }
        None
    }

    /// Merge one candidate; returns whether the table changed, i.e. the
    /// candidate was inserted or replaced a lower-scoring entry.
    pub fn merge_one(&mut self, cand: Submission) -> (updated: bool)
        requires
            old(self).wf(),
        ensures
            final(self).wf(),
            final(self).map_id == old(self).map_id,
            final(self)@ == spec_merge_one(old(self)@, cand),
            updated == (match old(self).spec_best(cand.participant_id) {
                None => true,
                Some(s) => cand.raw_score > s.raw_score,
            }),
    {
        let pid = cand.participant_id;
        let ghost entries0 = self@;
        let mut i: usize = 0;
        while i < self.entries.len()
            invariant
                self.wf(),
                *self == *old(self),
                self@ == entries0,
                pid == cand.participant_id,
                i <= self@.len(),
                forall|k: int| 0 <= k < i ==> self@[k].0 != pid,
            decreases self@.len() - i,
        {
            if self.entries[i].0 == pid {
                proof {
                    lemma_assoc_lookup_at(self@, pid, i as int);
                }
                let stored = self.entries[i].1;
                if cand.raw_score > stored.raw_score {
                    self.entries.set(i, (pid, cand));
                }
                proof {
                    assert(assoc_lookup(entries0, pid) is Some);
                    assert(entries0[i as int].0 == pid);
                    let merged = spec_merge_one(entries0, cand);
                    assert(merged.len() == entries0.len());
                    assert forall|k: int| 0 <= k < merged.len() implies self@[k] == merged[k] by {
                        if k < i {
                            assert(entries0[k].0 != pid);
                        } else if k > i {
                            assert(entries0[i as int].0 != entries0[k].0);
                        } else {
                            assert(entries0[k] == (pid, stored));
                        }
                    }
                    assert(self@ =~= merged);
                    assert forall|k1: int, k2: int|
                        0 <= k1 < k2 < self@.len() implies self@[k1].0 != self@[k2].0 by {
                        assert(self@[k1].0 == entries0[k1].0);
                        assert(self@[k2].0 == entries0[k2].0);
                    }
                }
                return cand.raw_score > stored.raw_score;
            }
            i += 1;
        }
        proof {
            lemma_assoc_lookup_some(entries0, pid);
            assert(!assoc_has_key(entries0, pid));
        }
        self.entries.push((pid, cand));
        proof {
            assert forall|k1: int, k2: int|
                0 <= k1 < k2 < self@.len() implies self@[k1].0 != self@[k2].0 by {
                if k2 == self@.len() - 1 {
                    assert(entries0[k1].0 != pid);
                }
            }
        }
        true
    }

    /// Merge a batch of candidates in order. Partial progress is total
    /// progress here: each candidate's merge is independent of the
    /// others' outcomes.
    pub fn merge_all(&mut self, cands: &Vec<Submission>)
        requires
            old(self).wf(),
        ensures
            final(self).wf(),
            final(self).map_id == old(self).map_id,
            final(self)@ == spec_merge_all(old(self)@, cands@),
    {
        let ghost entries0 = self@;
        let mut i: usize = 0;
        while i < cands.len()
            invariant
                self.wf(),
                self.map_id == old(self).map_id,
                entries0 == old(self)@,
                i <= cands@.len(),
                self@ == spec_merge_all(entries0, cands@.take(i as int)),
            decreases cands@.len() - i,
        {
            let ghost prefix = cands@.take(i as int);
            let ghost next_prefix = cands@.take(i + 1 as int);
            proof {
                assert(next_prefix.drop_last() =~= prefix);
                assert(next_prefix.last() == cands@[i as int]);
            }
            self.merge_one(cands[i]);
            i += 1;
        }
        proof {
            assert(cands@.take(cands@.len() as int) =~= cands@);
        }
    }
}

/// One merge step changes no participant's entry but the candidate's,
/// and that one it never lowers.
pub proof fn lemma_merge_one_preserves(entries: Seq<(u32, Submission)>, cand: Submission, pid: u32)
    requires
        assoc_unique_keys(entries),
    ensures
        assoc_unique_keys(spec_merge_one(entries, cand)),
        pid != cand.participant_id ==> assoc_lookup(spec_merge_one(entries, cand), pid)
            == assoc_lookup(entries, pid),
        pid == cand.participant_id ==> assoc_lookup(spec_merge_one(entries, cand), pid) == Some(
            spec_merge_rule(assoc_lookup(entries, pid), cand),
        ),
{
    let cpid = cand.participant_id;
    let merged = spec_merge_one(entries, cand);
    if assoc_lookup(entries, cpid) is None {
        lemma_assoc_lookup_some(entries, cpid);
        assert forall|k1: int, k2: int|
            0 <= k1 < k2 < merged.len() implies merged[k1].0 != merged[k2].0 by {
            if k2 == merged.len() - 1 {
                assert(entries[k1].0 != cpid);
            }
        }
        if pid != cpid {
            assert(merged.drop_last() =~= entries);
        } else {
            assert(merged.last() == (cpid, cand));
        }
    } else {
        lemma_assoc_lookup_some(entries, cpid);
        let w = choose|i: int| 0 <= i < entries.len() && entries[i].0 == cpid;
        lemma_assoc_lookup_at(entries, cpid, w);
        assert forall|k1: int, k2: int|
            0 <= k1 < k2 < merged.len() implies merged[k1].0 != merged[k2].0 by {
            assert(merged[k1].0 == entries[k1].0);
            assert(merged[k2].0 == entries[k2].0);
        }
        assert(merged =~= entries.update(w, (cpid, spec_merge_rule(Some(entries[w].1), cand))))
            by {
            assert forall|k: int| 0 <= k < merged.len() implies merged[k] == entries.update(
                w,
                (cpid, spec_merge_rule(Some(entries[w].1), cand)),
            )[k] by {
                if k != w && entries[k].0 == cpid {
                    assert(false);
                }
            }
        }
        if pid != cpid {
            lemma_assoc_lookup_update(entries, w, spec_merge_rule(Some(entries[w].1), cand), pid);
            assert(entries.update(w, (entries[w].0, spec_merge_rule(Some(entries[w].1), cand)))
                =~= merged);
        } else {
            lemma_assoc_lookup_at(merged, cpid, w);
        }
    }
}

/// Merging a batch never lowers any stored raw score, and never removes
/// an entry: monotonicity of the leaderboard under arbitrary candidate
/// sequences.
pub proof fn lemma_merge_all_monotone(
    entries: Seq<(u32, Submission)>,
    cands: Seq<Submission>,
    pid: u32,
)
    requires
        assoc_unique_keys(entries),
        assoc_lookup(entries, pid) is Some,
    ensures
        assoc_unique_keys(spec_merge_all(entries, cands)),
        assoc_lookup(spec_merge_all(entries, cands), pid) is Some,
        assoc_lookup(spec_merge_all(entries, cands), pid)->0.raw_score >= assoc_lookup(
            entries,
            pid,
        )->0.raw_score,
    decreases cands.len(),
{
    if cands.len() == 0 {
    } else {
        lemma_merge_all_monotone(entries, cands.drop_last(), pid);
        lemma_merge_one_preserves(spec_merge_all(entries, cands.drop_last()), cands.last(), pid);
    }
}

/// Keys never vanish and the table stays well-formed under merging.
pub proof fn lemma_merge_all_wf(entries: Seq<(u32, Submission)>, cands: Seq<Submission>)
    requires
        assoc_unique_keys(entries),
    ensures
        assoc_unique_keys(spec_merge_all(entries, cands)),
    decreases cands.len(),
{
    if cands.len() > 0 {
        lemma_merge_all_wf(entries, cands.drop_last());
        lemma_merge_one_preserves(
            spec_merge_all(entries, cands.drop_last()),
            cands.last(),
            cands.last().participant_id,
        );
    }
}

/// Merging the same candidate a second time changes nothing: idempotence
/// of the merge.
pub proof fn lemma_merge_idempotent(entries: Seq<(u32, Submission)>, cand: Submission)
    requires
        assoc_unique_keys(entries),
    ensures
        spec_merge_one(spec_merge_one(entries, cand), cand) =~= spec_merge_one(entries, cand),
{
    let pid = cand.participant_id;
    let once = spec_merge_one(entries, cand);
    lemma_merge_one_preserves(entries, cand, pid);
    assert(assoc_lookup(once, pid) is Some);
    let stored = assoc_lookup(once, pid)->0;
    assert(stored.raw_score >= cand.raw_score);
    let twice = spec_merge_one(once, cand);
    lemma_merge_one_preserves(once, cand, pid);
    assert forall|k: int| 0 <= k < twice.len() implies twice[k] == once[k] by {
        if once[k].0 == pid {
            lemma_assoc_lookup_at(once, pid, k);
        }
    }
}

} // verus!
