//! One tick of the tracking pipeline.
//!
//! A tick receives the active competition (if any), the current time,
//! and the freshly polled submission lists, one per participant whose
//! request succeeded. It selects each participant's best eligible
//! submission per mods value, merges the candidates into the
//! leaderboard, and reports the lifecycle signals the tick owes.

use vstd::prelude::*;

use crate::eligibility::{spec_select, select_best_per_mods};
use crate::leaderboard::{spec_merge_all, Leaderboard};
use crate::lifecycle::{lifecycle_check, spec_active, spec_signals, LifecycleState, TickSignals};
use crate::model::{Competition, Submission};

verus! {

/// Default seconds between two tracking ticks.
pub const DEFAULT_TICK_INTERVAL_SECS: i64 = 300;

/// Default number of recent submissions requested per participant.
pub const DEFAULT_SCORE_FETCH_LIMIT: u32 = 50;

/// All candidates of a tick: the concatenation of each polled
/// participant's per-mods group winners, in poll order.
pub open spec fn spec_all_candidates(
    polled: Seq<Vec<Submission>>,
    c: Competition,
    excluded_mods: u32,
) -> Seq<Submission>
    decreases polled.len(),
{
    if polled.len() == 0 {
        Seq::empty()
    } else {
        spec_all_candidates(polled.drop_last(), c, excluded_mods) + spec_select(
            polled.last()@,
            c,
            excluded_mods,
        )
    }
}

/// Collect the merge candidates of a tick: per polled participant the
/// best eligible submission of each mods group. A participant with no
/// eligible submission contributes nothing.
pub fn collect_candidates(
    polled: &Vec<Vec<Submission>>,
    c: &Competition,
    excluded_mods: u32,
) -> (r: Vec<Submission>)
    ensures
        r@ == spec_all_candidates(polled@, *c, excluded_mods),
{
    let mut r: Vec<Submission> = Vec::new();
    let mut i: usize = 0;
    proof {
        assert(polled@.take(0) =~= Seq::<Vec<Submission>>::empty());
    }
    while i < polled.len()
        invariant
            i <= polled@.len(),
            r@ == spec_all_candidates(polled@.take(i as int), *c, excluded_mods),
        decreases polled@.len() - i,
    {
        let ghost prefix = polled@.take(i as int);
        let ghost next_prefix = polled@.take(i + 1 as int);
        proof {
            assert(next_prefix.drop_last() =~= prefix);
            assert(next_prefix.last() == polled@[i as int]);
        }
        let mut winners = select_best_per_mods(&polled[i], c, excluded_mods);
        r.append(&mut winners);
        i += 1;
    }
    proof {
        assert(polled@.take(polled@.len() as int) =~= polled@);
    }
    r
}

/// Run one tick: compute the lifecycle signals for `now` and merge this
/// tick's candidates into the leaderboard. Without an active
/// competition the tick changes nothing and owes no announcement.
pub fn run_tick(
    comp: Option<&Competition>,
    now: i64,
    tick_interval: i64,
    polled: &Vec<Vec<Submission>>,
    excluded_mods: u32,
    board: &mut Leaderboard,
) -> (r: (LifecycleState, TickSignals))
    requires
        old(board).wf(),
    ensures
        final(board).wf(),
        final(board).map_id == old(board).map_id,
        r.0 == (match comp {
            None => LifecycleState::NoCompetition,
            Some(c) => if spec_active(*c, now as int) {
                LifecycleState::Active
            } else {
                LifecycleState::NoCompetition
            },
        }),
        r.1 == spec_signals(
            match comp {
                None => None::<Competition>,
                Some(c) => Some(*c),
            },
            now as int,
            tick_interval as int,
        ),
        final(board)@ == (match comp {
            None => old(board)@,
            Some(c) => spec_merge_all(
                old(board)@,
                spec_all_candidates(polled@, *c, excluded_mods),
            ),
        }),
{
    let (state, signals) = lifecycle_check(comp, now, tick_interval);
    if let Some(c) = comp {
        let candidates = collect_candidates(polled, c, excluded_mods);
        board.merge_all(&candidates);
    }
    (state, signals)
}

} // verus!
