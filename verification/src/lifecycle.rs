//! The competition lifecycle: which competition is active at a given
//! time, and the start/end announcement signals of a tick.
//!
//! Signals are computed each tick purely from the current time and the
//! active competition's window, with no persisted "already announced"
//! flag: an announcement fires on the tick that lands within one tick
//! interval of the boundary, and on no later tick.

use vstd::prelude::*;

use crate::model::Competition;

verus! {

/// Whether `c` is active at time `now`.
pub open spec fn spec_active(c: Competition, now: int) -> bool {
    c.start_date <= now < c.end_date
}

/// Whether a tick at `now` announces the start of `c`.
pub open spec fn spec_just_started(c: Competition, now: int, tick_interval: int) -> bool {
    spec_active(c, now) && now - c.start_date < tick_interval
}

/// Whether a tick at `now` announces the imminent end of `c`.
pub open spec fn spec_about_to_end(c: Competition, now: int, tick_interval: int) -> bool {
    spec_active(c, now) && c.end_date - now < tick_interval
}

/// The first competition of `rows` active at `now`, if any.
pub open spec fn spec_find_active(rows: Seq<Competition>, now: int) -> Option<Competition>
    decreases rows.len(),
{
    if rows.len() == 0 {
        None
    } else if spec_active(rows[0], now) {
        Some(rows[0])
    } else {
        spec_find_active(rows.drop_first(), now)
    }
}

/// Lifecycle state of a tick.
#[derive(Clone, Copy, Debug, PartialEq, Eq, Structural)]
pub enum LifecycleState {
    NoCompetition,
    Active,
}

/// The announcements a tick owes.
#[derive(Clone, Copy, Debug, PartialEq, Eq, Structural)]
pub struct TickSignals {
    pub just_started: bool,
    pub about_to_end: bool,
}

/// The signals a tick at `now` emits for an (optional) active
/// competition.
pub open spec fn spec_signals(comp: Option<Competition>, now: int, tick_interval: int) -> TickSignals {
    match comp {
        None => TickSignals { just_started: false, about_to_end: false },
        Some(c) => TickSignals {
            just_started: spec_just_started(c, now, tick_interval),
            about_to_end: spec_about_to_end(c, now, tick_interval),
        },
    }
}

/// Select the first competition row whose window contains `now`.
pub fn find_active(rows: &Vec<Competition>, now: i64) -> (r: Option<Competition>)
    ensures
        r == spec_find_active(rows@, now as int),
{
    let mut i: usize = 0;
    proof {
        assert(rows@.skip(0) =~= rows@);
    }
    while i < rows.len()
        invariant
            i <= rows@.len(),
            spec_find_active(rows@, now as int) == spec_find_active(
                rows@.skip(i as int),
                now as int,
            ),
        decreases rows@.len() - i,
    {
        let c = rows[i];
        proof {
            assert(rows@.skip(i as int)[0] == c);
            assert(rows@.skip(i as int).drop_first() =~= rows@.skip(i + 1 as int));
        }
        if c.start_date <= now && now < c.end_date {
            return Some(c);
        }
        i += 1;
    }
    proof {
        assert(rows@.skip(rows@.len() as int) =~= Seq::<Competition>::empty());
    }
    None
}

/// Compute the lifecycle state and announcement signals of a tick at
/// `now`, for the active competition if one exists.
pub fn lifecycle_check(comp: Option<&Competition>, now: i64, tick_interval: i64) -> (r: (
    LifecycleState,
    TickSignals,
))
    ensures
        r.0 == (match comp {
            None => LifecycleState::NoCompetition,
            Some(c) => if spec_active(*c, now as int) {
                LifecycleState::Active
            } else {
                LifecycleState::NoCompetition
            },
        }),
        r.1 == spec_signals(
            match comp {
                None => None::<Competition>,
                Some(c) => Some(*c),
            },
            now as int,
            tick_interval as int,
        ),
{
    match comp {
        None => (
            LifecycleState::NoCompetition,
            TickSignals { just_started: false, about_to_end: false },
        ),
        Some(c) => {
            let active = c.start_date <= now && now < c.end_date;
            let just_started = active && (now as i128 - c.start_date as i128) < (tick_interval
                as i128);
            let about_to_end = active && (c.end_date as i128 - now as i128) < (tick_interval
                as i128);
            let state = if active {
                LifecycleState::Active
            } else {
                LifecycleState::NoCompetition
            };
            (state, TickSignals { just_started, about_to_end })
        },
    }
}

/// The end-of-competition announcement fires at most once per boundary:
/// once a tick at `now` emits it, the next tick, one interval later,
/// falls outside the window and emits nothing.
pub proof fn lemma_about_to_end_fires_once(c: Competition, now: int, tick_interval: int)
    requires
        spec_about_to_end(c, now, tick_interval),
    ensures
        !spec_about_to_end(c, now + tick_interval, tick_interval),
        !spec_active(c, now + tick_interval),
{
}

/// The start announcement fires at most once per boundary as well.
pub proof fn lemma_just_started_fires_once(c: Competition, now: int, tick_interval: int)
    requires
        spec_just_started(c, now, tick_interval),
    ensures
        !spec_just_started(c, now + tick_interval, tick_interval),
{
}

} // verus!
