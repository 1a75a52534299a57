//! Value types of the engine: submissions, competitions, grades.
//!
//! Timestamps are plain unix seconds; mods are a plain bitmask. The
//! engine never inspects dates or mod objects of an outside crate.

use vstd::prelude::*;

verus! {

/// The letter grade an external scoring service assigns to a submission.
#[derive(Clone, Copy, Debug, PartialEq, Eq, Structural)]
pub enum Grade {
    F,
    D,
    C,
    B,
    A,
    S,
    SH,
    X,
    XH,
}

/// One externally-reported play for a participant, reduced to the plain
/// values the engine reads.
#[derive(Clone, Copy, Debug, PartialEq, Eq, Structural)]
pub struct Submission {
    pub participant_id: u32,
    pub map_id: u32,
    pub mods: u32,
    pub raw_score: u64,
    pub max_combo: u32,
    pub count_300: u32,
    pub count_100: u32,
    pub count_50: u32,
    pub count_miss: u32,
    /// Unix timestamp (seconds) of when the play was set.
    pub created_at: i64,
    pub grade: Grade,
}

/// A time-boxed scoring event tied to one beatmap.
#[derive(Clone, Copy, Debug, PartialEq, Eq, Structural)]
pub struct Competition {
    pub map_id: u32,
    /// Unix timestamp (seconds) at which submissions start to count.
    pub start_date: i64,
    /// Unix timestamp (seconds) at which the competition closes.
    pub end_date: i64,
}

} // verus!
