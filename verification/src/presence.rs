//! The registry of participants currently observed online.
//!
//! A presence feed reports participants joining and leaving; each tick
//! reads one snapshot to bound its fan-out. Events for participants
//! already in the reported state change nothing.

use vstd::prelude::*;

verus! {

/// The set of participant identifiers currently online.
pub struct PresenceRegistry {
    /// Online participants; methods keep the entries distinct.
    pub online: Vec<u32>,
}

impl PresenceRegistry {
    /// The online participants as a set.
    pub open spec fn view(self) -> Set<u32> {
        self.online@.to_set()
    }

    /// No participant is listed twice.
    pub open spec fn wf(self) -> bool {
        forall|i: int, j: int| 0 <= i < j < self.online@.len() ==> self.online@[i] != self.online@[j]
    }

    /// An empty registry.
    pub fn new() -> (r: PresenceRegistry)
        ensures
            r.wf(),
            r@ =~= Set::<u32>::empty(),
    {
        let r = PresenceRegistry { online: Vec::new() };
        proof {
            assert forall|x: u32| !r@.contains(x) by {
                if r.online@.to_set().contains(x) {
                    let i = choose|i: int| 0 <= i < r.online@.len() && r.online@[i] == x;
                }
            }
        }
        r
    }

    /// Whether `id` is currently online.
    pub fn is_online(&self, id: u32) -> (r: bool)
        ensures
            r == self@.contains(id),
    {
        let mut i: usize = 0;
        while i < self.online.len()
            invariant
                i <= self.online@.len(),
                forall|k: int| 0 <= k < i ==> self.online@[k] != id,
            decreases self.online@.len() - i,
        {
            if self.online[i] == id {
                proof {
                    assert(self.online@.contains(id));
                }
                return true;
            }
            i += 1;
        }
        proof {
            if self@.contains(id) {
                let k = choose|k: int| 0 <= k < self.online@.len() && self.online@[k] == id;
            }
        }
        false
    }

    /// Record that `id` came online.
    pub fn mark_online(&mut self, id: u32)
        requires
            old(self).wf(),
        ensures
            final(self).wf(),
            final(self)@ =~= old(self)@.insert(id),
    {
        if !self.is_online(id) {
            self.online.push(id);
            proof {
                let s0 = old(self).online@;
                assert forall|x: u32| final(self)@.contains(x) <==> old(self)@.insert(id).contains(
                    x,
                ) by {
                    if final(self)@.contains(x) {
                        let k = choose|k: int|
                            0 <= k < self.online@.len() && self.online@[k] == x;
                        if k < s0.len() {
                            assert(s0[k] == x);
                        }
                    }
                    if x == id {
                        assert(self.online@.last() == id);
                    } else if old(self)@.contains(x) {
                        let k = choose|k: int| 0 <= k < s0.len() && s0[k] == x;
                        assert(self.online@[k] == x);
                    }
                }
                assert forall|i: int, j: int|
                    0 <= i < j < self.online@.len() implies self.online@[i] != self.online@[j] by {
                    if j == self.online@.len() - 1 {
                        assert(s0[i] == self.online@[i]);
                        assert(!s0.contains(id));
                    }
                }
            }
        } else {
            proof {
                assert(old(self)@.insert(id) =~= old(self)@);
            }
        }
    }

    /// Record that `id` went offline.
    pub fn mark_offline(&mut self, id: u32)
        requires
            old(self).wf(),
        ensures
            final(self).wf(),
            final(self)@ =~= old(self)@.remove(id),
    {
        let ghost s0 = self.online@;
        let mut i: usize = 0;
        while i < self.online.len()
            invariant
                self.wf(),
                *self == *old(self),
                s0 == self.online@,
                i <= self.online@.len(),
                forall|k: int| 0 <= k < i ==> self.online@[k] != id,
            decreases self.online@.len() - i,
        {
            if self.online[i] == id {
                self.online.remove(i);
                proof {
                    let s1 = self.online@;
                    assert forall|x: u32| s1.to_set().contains(x) <==> s0.to_set().remove(
                        id,
                    ).contains(x) by {
                        if s1.to_set().contains(x) {
                            let k = choose|k: int| 0 <= k < s1.len() && s1[k] == x;
                            if k < i {
                                assert(s0[k] == x);
                            } else {
                                assert(s0[k + 1] == x);
                            }
                            if x == id {
                                assert(s0[i as int] == id);
                            }
                        }
                        if x != id && s0.to_set().contains(x) {
                            let k = choose|k: int| 0 <= k < s0.len() && s0[k] == x;
                            if k < i {
                                assert(s1[k] == x);
                            } else {
                                assert(s1[k - 1] == x);
                            }
                        }
                    }
                    assert forall|a: int, b: int|
                        0 <= a < b < s1.len() implies s1[a] != s1[b] by {
                        let a0 = if a < i { a } else { a + 1 };
                        let b0 = if b < i { b } else { b + 1 };
                        assert(s1[a] == s0[a0]);
                        assert(s1[b] == s0[b0]);
                    }
                }
                return ;
            }
            i += 1;
        }
        proof {
            if self@.contains(id) {
                let k = choose|k: int| 0 <= k < self.online@.len() && self.online@[k] == id;
            }
            assert(self@ =~= old(self)@.remove(id));
        }
    }

    /// A snapshot of the online participants, for one tick's fan-out.
    pub fn snapshot_online(&self) -> (r: Vec<u32>)
        ensures
            r@ == self.online@,
            r@.to_set() =~= self@,
    {
        let mut r: Vec<u32> = Vec::new();
        let mut i: usize = 0;
        while i < self.online.len()
            invariant
                i <= self.online@.len(),
                r@ == self.online@.take(i as int),
            decreases self.online@.len() - i,
        {
            r.push(self.online[i]);
            proof {
                assert(self.online@.take(i + 1 as int) =~= self.online@.take(i as int).push(
                    self.online@[i as int],
                ));
            }
            i += 1;
        }
        proof {
            assert(self.online@.take(self.online@.len() as int) =~= self.online@);
        }
        r
    }
}

} // verus!
