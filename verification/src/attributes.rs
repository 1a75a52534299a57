//! Memoized difficulty attributes per mods value, for the artifact of
//! the competition's current map.
//!
//! Computing difficulty attributes is expensive; within one tracking
//! cycle every submission sharing a mods value reuses the attributes
//! computed for the first one. The cache is keyed by mods value and
//! belongs to one map: switching to another map clears it, since the
//! attributes of the old artifact are stale.
//!
//! The computation itself is the outside difficulty calculator's; its
//! results pass through this cache as opaque values.

use vstd::prelude::*;

use crate::assoc::{assoc_lookup, assoc_unique_keys, lemma_assoc_lookup_at, lemma_assoc_lookup_some};

verus! {

#[verifier::external_type_specification]
#[verifier::external_body]
pub struct ExBeatmap(rosu_pp::Beatmap);

#[verifier::external_type_specification]
#[verifier::external_body]
pub struct ExDifficultyAttributes(rosu_pp::any::DifficultyAttributes);

/// Relies on rosu_pp::Beatmap::from_bytes: parses the content of a
/// `.osu` artifact, `None` when the bytes are not a readable beatmap.
#[verifier::external_body]
pub fn parse_artifact(bytes: &Vec<u8>) -> (r: Option<rosu_pp::Beatmap>) {
    match rosu_pp::Beatmap::from_bytes(bytes.as_slice()) {
        Ok(map) => Some(map),
        Err(_) => None,
    }
}

/// Relies on rosu_pp::Difficulty::calculate: computes the difficulty
/// attributes of `map` under the legacy mods bitmask `mods`.
#[verifier::external_body]
fn compute_attributes(map: &rosu_pp::Beatmap, mods: u32) -> (r: rosu_pp::any::DifficultyAttributes) {
    rosu_pp::Difficulty::new().mods(mods).calculate(map)
}

/// Cache of computed difficulty attributes, keyed by mods value, valid
/// for one map at a time.
pub struct AttributeCache {
    /// The map the cached attributes belong to.
    pub map_id: Option<u32>,
    /// Cached attributes; methods keep the mods keys unique.
    pub entries: Vec<(u32, rosu_pp::any::DifficultyAttributes)>,
}

impl AttributeCache {
    pub open spec fn view(self) -> Seq<(u32, rosu_pp::any::DifficultyAttributes)> {
        self.entries@
    }

    /// At most one entry per mods value.
    pub open spec fn wf(self) -> bool {
        assoc_unique_keys(self@)
    }

    /// The cached attributes for `mods`, if any.
    pub open spec fn spec_get(self, mods: u32) -> Option<rosu_pp::any::DifficultyAttributes> {
        assoc_lookup(self@, mods)
    }

    /// An empty cache, bound to no map yet.
    pub fn new() -> (r: AttributeCache)
        ensures
            r.wf(),
            r.map_id is None,
            r@ =~= Seq::<(u32, rosu_pp::any::DifficultyAttributes)>::empty(),
    {
        AttributeCache { map_id: None, entries: Vec::new() }
    }

    /// Bind the cache to `map_id`. A map change invalidates every
    /// entry; binding the current map again keeps them.
    pub fn set_map(&mut self, map_id: u32)
        requires
            old(self).wf(),
        ensures
            final(self).wf(),
            final(self).map_id == Some(map_id),
            old(self).map_id == Some(map_id) ==> *final(self) == *old(self),
            old(self).map_id != Some(map_id) ==> final(self)@ =~= Seq::<
                (u32, rosu_pp::any::DifficultyAttributes),
            >::empty(),
    {
        let same = match self.map_id {
            Some(m) => m == map_id,
            None => false,
        };
        if !same {
            self.map_id = Some(map_id);
            self.entries.clear();
        }
    }

    /// The cached attributes for `mods`, if any.
    pub fn get(&self, mods: u32) -> (r: Option<&rosu_pp::any::DifficultyAttributes>)
        requires
            self.wf(),
        ensures
            match r {
                Some(a) => self.spec_get(mods) == Some(*a),
                None => self.spec_get(mods) is None,
            },
    {
        let mut i: usize = 0;
        while i < self.entries.len()
            invariant
                self.wf(),
                i <= self@.len(),
                forall|k: int| 0 <= k < i ==> self@[k].0 != mods,
            decreases self@.len() - i,
        {
            if self.entries[i].0 == mods {
                proof {
                    lemma_assoc_lookup_at(self@, mods, i as int);
                }
                return Some(&self.entries[i].1);
            }
            i += 1;
        }
        proof {
            lemma_assoc_lookup_some(self@, mods);
        }
        None
    }

    /// Make sure attributes for `mods` are cached: a hit leaves the
    /// cache untouched, a miss computes once and stores the result.
    pub fn ensure_cached(&mut self, map: &rosu_pp::Beatmap, mods: u32)
        requires
            old(self).wf(),
        ensures
            final(self).wf(),
            final(self).map_id == old(self).map_id,
            final(self).spec_get(mods) is Some,
            old(self).spec_get(mods) is Some ==> *final(self) == *old(self),
            old(self).spec_get(mods) is None ==> exists|a: rosu_pp::any::DifficultyAttributes|
                final(self)@ == old(self)@.push((mods, a)),
    {
        let hit = match self.get(mods) {
            Some(_) => true,
            None => false,
        };
        if !hit {
            let ghost s0 = self@;
            let attrs = compute_attributes(map, mods);
            self.entries.push((mods, attrs));
            proof {
                lemma_assoc_lookup_some(s0, mods);
                assert forall|k1: int, k2: int|
                    0 <= k1 < k2 < self@.len() implies self@[k1].0 != self@[k2].0 by {
                    if k2 == self@.len() - 1 {
                        assert(s0[k1].0 != mods);
                    }
                }
                assert(self@.last() == (mods, attrs));
                assert(self@ == s0.push((mods, attrs)));
            }
        }
    }
}

} // verus!
