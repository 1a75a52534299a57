//! The handle directory: maps a participant's chat handle to the stable
//! participant id the scoring service knows.
//!
//! The presence feed reports handles; the scoring service resolves a
//! handle to an id once, and the directory remembers the answer so later
//! ticks need no further lookup. A handle, once resolved, keeps its id.

use vstd::prelude::*;

verus! {

/// The id recorded for `handle`, if any.
pub open spec fn spec_dir_lookup(entries: Seq<(String, u32)>, handle: Seq<char>) -> Option<u32>
    decreases entries.len(),
{
    if entries.len() == 0 {
        None
    } else if entries.last().0@ == handle {
        Some(entries.last().1)
    } else {
        spec_dir_lookup(entries.drop_last(), handle)
    }
}

/// Remembered handle-to-id resolutions.
pub struct HandleDirectory {
    /// Resolved handles; methods keep them distinct.
    pub entries: Vec<(String, u32)>,
}

impl HandleDirectory {
    pub open spec fn view(self) -> Seq<(String, u32)> {
        self.entries@
    }

    /// No handle is recorded twice.
    pub open spec fn wf(self) -> bool {
        forall|i: int, j: int| 0 <= i < j < self@.len() ==> self@[i].0@ != self@[j].0@
    }

    /// The id recorded for `handle`, if any.
    pub open spec fn spec_lookup(self, handle: Seq<char>) -> Option<u32> {
        spec_dir_lookup(self@, handle)
    }

    /// An empty directory.
    pub fn new() -> (r: HandleDirectory)
        ensures
            r.wf(),
            r@ =~= Seq::<(String, u32)>::empty(),
    {
        HandleDirectory { entries: Vec::new() }
    }

    /// The id recorded for `handle`, if any.
    pub fn lookup(&self, handle: &String) -> (r: Option<u32>)
        requires
            self.wf(),
        ensures
            r == self.spec_lookup(handle@),
    {
        let mut i: usize = 0;
        while i < self.entries.len()
            invariant
                self.wf(),
                i <= self@.len(),
                forall|k: int| 0 <= k < i ==> self@[k].0@ != handle@,
            decreases self@.len() - i,
        {
            if self.entries[i].0 == *handle {
                proof {
                    lemma_dir_lookup_at(self@, handle@, i as int);
                }
                return Some(self.entries[i].1);
            }
            i += 1;
        }
        proof {
            lemma_dir_lookup_none(self@, handle@);
        }
        None
    }

    /// Record a freshly resolved handle. A handle already recorded keeps
    /// its id: resolutions are remembered, not revised.
    pub fn record(&mut self, handle: String, id: u32)
        requires
            old(self).wf(),
        ensures
            final(self).wf(),
            old(self).spec_lookup(handle@) is None ==> final(self)@ == old(self)@.push(
                (handle, id),
            ),
            old(self).spec_lookup(handle@) is Some ==> *final(self) == *old(self),
            final(self).spec_lookup(handle@) == (match old(self).spec_lookup(handle@) {
                None => Some(id),
                Some(recorded) => Some(recorded),
            }),
    {
        let hit = match self.lookup(&handle) {
            Some(_) => true,
            None => false,
        };
        if !hit {
            let ghost s0 = self@;
            self.entries.push((handle, id));
            proof {
                lemma_dir_lookup_none(s0, self@.last().0@);
                assert(forall|k: int| 0 <= k < s0.len() ==> s0[k].0@ != self@.last().0@);
                assert forall|k1: int, k2: int|
                    0 <= k1 < k2 < self@.len() implies self@[k1].0@ != self@[k2].0@ by {
                    if k2 == self@.len() - 1 {
                        assert(s0[k1].0@ != self@.last().0@);
                    }
                }
                assert(self@.last().1 == id);
            }
        }
    }
}

/// A recorded handle is found at the index that carries it.
proof fn lemma_dir_lookup_at(entries: Seq<(String, u32)>, handle: Seq<char>, i: int)
    requires
        forall|a: int, b: int| 0 <= a < b < entries.len() ==> entries[a].0@ != entries[b].0@,
        0 <= i < entries.len(),
        entries[i].0@ == handle,
    ensures
        spec_dir_lookup(entries, handle) == Some(entries[i].1),
    decreases entries.len(),
{
    if entries.last().0@ == handle {
        assert(i == entries.len() - 1);
    } else {
        assert(entries.drop_last()[i] == entries[i]);
        lemma_dir_lookup_at(entries.drop_last(), handle, i);
    }
}

/// A handle is missed exactly when no index carries it.
proof fn lemma_dir_lookup_none(entries: Seq<(String, u32)>, handle: Seq<char>)
    ensures
        spec_dir_lookup(entries, handle) is None <==> (forall|k: int|
            0 <= k < entries.len() ==> entries[k].0@ != handle),
    decreases entries.len(),
{
    if entries.len() > 0 {
        lemma_dir_lookup_none(entries.drop_last(), handle);
        assert forall|k: int| 0 <= k < entries.drop_last().len() implies entries.drop_last()[k]
            == entries[k] by {}
        if entries.last().0@ == handle {
            assert(entries[entries.len() - 1].0@ == handle);
        }
    }
}

} // verus!
