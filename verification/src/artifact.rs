//! The local cache of beatmap artifacts and the bounded retry protocol
//! for fetching a missing one.
//!
//! Artifacts are immutable once published: a cached entry is returned
//! without any further request, and entries are never invalidated. On a
//! miss the caller requests the artifact from the transport; a payload
//! shorter than six bytes, or opening with the literal bytes `<html>`
//! (the service's failure page), does not count as success. The protocol
//! allows a bounded number of retries with exponentially growing delays
//! before giving up.

use vstd::prelude::*;

use crate::assoc::{
    assoc_lookup, assoc_unique_keys, lemma_assoc_lookup_at, lemma_assoc_lookup_some,
};
use crate::backoff::ExponentialBackoff;

verus! {

/// Default backoff base.
pub const DEFAULT_BACKOFF_BASE: u32 = 2;

/// Default backoff factor, in milliseconds.
pub const DEFAULT_BACKOFF_FACTOR: u32 = 500;

/// Default cap on a single backoff delay, in milliseconds.
pub const DEFAULT_BACKOFF_MAX_DELAY: u64 = 10_000;

/// Default number of retries after the first request.
pub const DEFAULT_MAX_RETRIES: u32 = 10;

/// Whether a transport payload is a usable artifact: at least six bytes,
/// and not the service's `<html>` failure page.
pub open spec fn spec_artifact_valid(bytes: Seq<u8>) -> bool {
    &&& bytes.len() >= 6
    &&& !(bytes[0] == '<' as u8 && bytes[1] == 'h' as u8 && bytes[2] == 't' as u8 && bytes[3]
        == 'm' as u8 && bytes[4] == 'l' as u8 && bytes[5] == '>' as u8)
}

/// Executable artifact validation.
pub fn artifact_valid(bytes: &Vec<u8>) -> (r: bool)
    ensures
        r == spec_artifact_valid(bytes@),
{
    bytes.len() >= 6 && !(bytes[0] == '<' as u8 && bytes[1] == 'h' as u8 && bytes[2] == 't' as u8
        && bytes[3] == 'm' as u8 && bytes[4] == 'l' as u8 && bytes[5] == '>' as u8)
}

/// Failure of an artifact fetch.
#[derive(Clone, Copy, Debug, PartialEq, Eq, Structural)]
pub enum FetchError {
    /// All attempts for this map id were used up without a valid payload.
    RetryLimit(u32),
}

/// What the fetch driver must do after handing one transport outcome to
/// the protocol.
#[derive(Clone, Copy, Debug, PartialEq, Eq, Structural)]
pub enum FetchStep {
    /// The payload was valid: store it and stop.
    Success,
    /// Wait `delay_ms` milliseconds, then request again.
    Retry { delay_ms: u64 },
    /// Give up with the given error.
    GiveUp(FetchError),
}

/// The state of one bounded fetch-with-backoff sequence for one map.
pub struct FetchState {
    pub map_id: u32,
    /// Retries handed out so far.
    pub retries_used: u32,
    /// Retries allowed after the first request.
    pub max_retries: u32,
    pub backoff: ExponentialBackoff,
}

impl FetchState {
    /// A fetch sequence for `map_id` with explicit backoff parameters.
    pub fn new(
        map_id: u32,
        base: u32,
        factor: u32,
        max_delay: u64,
        max_retries: u32,
    ) -> (r: FetchState)
        ensures
            r.map_id == map_id,
            r.retries_used == 0,
            r.max_retries == max_retries,
            r.backoff == (ExponentialBackoff {
                current: base as u64,
                base: base,
                factor: factor,
                max_delay: Some(max_delay),
            }),
    {
        FetchState {
            map_id,
            retries_used: 0,
            max_retries,
            backoff: ExponentialBackoff::new(base).factor(factor).max_delay(max_delay),
        }
    }

    /// A fetch sequence with the default backoff configuration: delays
    /// of 1000, 2000, 4000, 8000 and then 10000 milliseconds, and ten
    /// retries after the first request.
    pub fn with_defaults(map_id: u32) -> (r: FetchState)
        ensures
            r.map_id == map_id,
            r.retries_used == 0,
            r.max_retries == DEFAULT_MAX_RETRIES,
            r.backoff == (ExponentialBackoff {
                current: DEFAULT_BACKOFF_BASE as u64,
                base: DEFAULT_BACKOFF_BASE,
                factor: DEFAULT_BACKOFF_FACTOR,
                max_delay: Some(DEFAULT_BACKOFF_MAX_DELAY),
            }),
    {
        FetchState::new(
            map_id,
            DEFAULT_BACKOFF_BASE,
            DEFAULT_BACKOFF_FACTOR,
            DEFAULT_BACKOFF_MAX_DELAY,
            DEFAULT_MAX_RETRIES,
        )
    }

    /// Advance the protocol with one transport outcome: the payload, or
    /// `None` for a transport failure (a timed-out call counts as a
    /// failed call). A valid payload succeeds; otherwise the protocol
    /// retries until `max_retries` delays have been handed out, then
    /// gives up.
    pub fn on_response(&mut self, response: Option<&Vec<u8>>) -> (step: FetchStep)
        ensures
            match response {
                Some(bytes) if spec_artifact_valid(bytes@) => step == FetchStep::Success
                    && *final(self) == *old(self),
                _ => {
                    if old(self).retries_used < old(self).max_retries {
                        let (d, b) = old(self).backoff.spec_next();
                        &&& step == (FetchStep::Retry { delay_ms: d })
                        &&& *final(self) == (FetchState {
                            retries_used: (old(self).retries_used + 1) as u32,
                            backoff: b,
                            ..*old(self)
                        })
                    } else {
                        &&& step == FetchStep::GiveUp(FetchError::RetryLimit(old(self).map_id))
                        &&& *final(self) == *old(self)
                    }
                },
            },
    {
        if let Some(bytes) = response {
            if artifact_valid(bytes) {
                return FetchStep::Success;
            }
        }
        if self.retries_used < self.max_retries {
            self.retries_used += 1;
            let delay_ms = self.backoff.next_delay();
            FetchStep::Retry { delay_ms }
        } else {
            FetchStep::GiveUp(FetchError::RetryLimit(self.map_id))
        }
    }
}

/// In-memory, write-once cache of artifacts keyed by map id.
pub struct ArtifactCache {
    /// Cached artifacts; methods keep the keys unique.
    pub entries: Vec<(u32, Vec<u8>)>,
}

impl ArtifactCache {
    pub open spec fn view(self) -> Seq<(u32, Vec<u8>)> {
        self.entries@
    }

    /// At most one artifact per map id.
    pub open spec fn wf(self) -> bool {
        assoc_unique_keys(self@)
    }

    /// The cached artifact for `map_id`, if any.
    pub open spec fn spec_get(self, map_id: u32) -> Option<Vec<u8>> {
        assoc_lookup(self@, map_id)
    }

    /// An empty cache.
    pub fn new() -> (r: ArtifactCache)
        ensures
            r.wf(),
            r@ =~= Seq::<(u32, Vec<u8>)>::empty(),
    {
        ArtifactCache { entries: Vec::new() }
    }

    /// Whether a fetch is needed for `map_id`: exactly when no artifact
    /// is cached. A cached artifact is served with no request at all.
    pub fn needs_fetch(&self, map_id: u32) -> (r: bool)
        requires
            self.wf(),
        ensures
            r == (self.spec_get(map_id) is None),
    {
        let mut i: usize = 0;
        while i < self.entries.len()
            invariant
                self.wf(),
                i <= self@.len(),
                forall|k: int| 0 <= k < i ==> self@[k].0 != map_id,
            decreases self@.len() - i,
        {
            if self.entries[i].0 == map_id {
                proof {
                    lemma_assoc_lookup_at(self@, map_id, i as int);
                }
                return false;
            }
            i += 1;
        }
        proof {
            lemma_assoc_lookup_some(self@, map_id);
        }
        true
    }

    /// The cached artifact bytes for `map_id`, if any.
    pub fn get(&self, map_id: u32) -> (r: Option<&Vec<u8>>)
        requires
            self.wf(),
        ensures
            match r {
                Some(bytes) => self.spec_get(map_id) == Some(*bytes),
                None => self.spec_get(map_id) is None,
            },
    {
        let mut i: usize = 0;
        while i < self.entries.len()
            invariant
                self.wf(),
                i <= self@.len(),
                forall|k: int| 0 <= k < i ==> self@[k].0 != map_id,
            decreases self@.len() - i,
        {
            if self.entries[i].0 == map_id {
                proof {
                    lemma_assoc_lookup_at(self@, map_id, i as int);
                }
                return Some(&self.entries[i].1);
            }
            i += 1;
        }
        proof {
            lemma_assoc_lookup_some(self@, map_id);
        }
        None
    }

    /// Store a fetched artifact. Artifacts are write-once: when one is
    /// already cached for `map_id`, the cache is unchanged.
    pub fn insert(&mut self, map_id: u32, bytes: Vec<u8>)
        requires
            old(self).wf(),
        ensures
            final(self).wf(),
            old(self).spec_get(map_id) is None ==> final(self)@ == old(self)@.push(
                (map_id, bytes),
            ),
            old(self).spec_get(map_id) is Some ==> *final(self) == *old(self),
            final(self).spec_get(map_id) == (match old(self).spec_get(map_id) {
                None => Some(bytes),
                Some(stored) => Some(stored),
            }),
    {
        if self.needs_fetch(map_id) {
            let ghost s0 = self@;
            self.entries.push((map_id, bytes));
            proof {
                lemma_assoc_lookup_some(s0, map_id);
                assert forall|k1: int, k2: int|
                    0 <= k1 < k2 < self@.len() implies self@[k1].0 != self@[k2].0 by {
                    if k2 == self@.len() - 1 {
                        assert(s0[k1].0 != map_id);
                    }
                }
                assert(self@.last() == (map_id, bytes));
            }
        }
    }
}

} // verus!
