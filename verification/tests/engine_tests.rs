use osuvs_engine::eligibility::{is_eligible, select_best_per_mods, SCORE_V2};
use osuvs_engine::engine::{collect_candidates, run_tick};
use osuvs_engine::leaderboard::Leaderboard;
use osuvs_engine::lifecycle::{find_active, lifecycle_check, LifecycleState};
use osuvs_engine::model::{Competition, Grade, Submission};

const HOUR: i64 = 3600;
const WEEK: i64 = 7 * 24 * 3600;

fn competition() -> Competition {
    Competition { map_id: 42, start_date: 1_000_000, end_date: 1_000_000 + WEEK }
}

fn submission(mods: u32, raw_score: u64, created_at: i64) -> Submission {
    Submission {
        participant_id: 7,
        map_id: 42,
        mods,
        raw_score,
        max_combo: 500,
        count_300: 400,
        count_100: 20,
        count_50: 2,
        count_miss: 1,
        created_at,
        grade: Grade::S,
    }
}

const HD: u32 = 8;
const DT: u32 = 64;

#[test]
fn eligibility_rejects_each_reason_independently() {
    let c = competition();
    let ok = submission(HD, 900_000, c.start_date + HOUR);
    assert!(is_eligible(&ok, &c, SCORE_V2));

    let too_early = Submission { created_at: c.start_date - 1, ..ok };
    assert!(!is_eligible(&too_early, &c, SCORE_V2));

    let failed = Submission { grade: Grade::F, ..ok };
    assert!(!is_eligible(&failed, &c, SCORE_V2));

    let excluded_mod = Submission { mods: HD | SCORE_V2, ..ok };
    assert!(!is_eligible(&excluded_mod, &c, SCORE_V2));

    let other_map = Submission { map_id: 43, ..ok };
    assert!(!is_eligible(&other_map, &c, SCORE_V2));
}

#[test]
fn selection_keeps_best_per_mods_group() {
    let c = competition();
    let subs = vec![
        submission(HD, 900_000, c.start_date + HOUR),
        submission(HD, 950_000, c.start_date + 2 * HOUR),
        submission(DT, 800_000, c.start_date + HOUR),
    ];
    let winners = select_best_per_mods(&subs, &c, SCORE_V2);
    assert_eq!(winners.len(), 2);
    let hd = winners.iter().find(|s| s.mods == HD).unwrap();
    let dt = winners.iter().find(|s| s.mods == DT).unwrap();
    assert_eq!(hd.raw_score, 950_000);
    assert_eq!(dt.raw_score, 800_000);
}

#[test]
fn selection_dominates_every_eligible_submission() {
    let c = competition();
    let subs = vec![
        submission(HD, 10, c.start_date + HOUR),
        submission(HD, 30, c.start_date + 2 * HOUR),
        submission(HD, 20, c.start_date + 3 * HOUR),
        submission(0, 5, c.start_date + HOUR),
        submission(0, 50, c.start_date + 2 * HOUR),
    ];
    let winners = select_best_per_mods(&subs, &c, SCORE_V2);
    for s in &subs {
        let w = winners.iter().find(|w| w.mods == s.mods).unwrap();
        assert!(w.raw_score >= s.raw_score);
    }
}

#[test]
fn selection_tie_goes_to_earliest() {
    let c = competition();
    let later = submission(HD, 900_000, c.start_date + 2 * HOUR);
    let earlier = submission(HD, 900_000, c.start_date + HOUR);
    let winners = select_best_per_mods(&vec![later, earlier], &c, SCORE_V2);
    assert_eq!(winners.len(), 1);
    assert_eq!(winners[0].created_at, c.start_date + HOUR);
}

#[test]
fn selection_drops_participant_without_eligible_submission() {
    let c = competition();
    let subs = vec![
        Submission { grade: Grade::F, ..submission(HD, 900_000, c.start_date + HOUR) },
        Submission { map_id: 9, ..submission(DT, 800_000, c.start_date + HOUR) },
    ];
    let winners = select_best_per_mods(&subs, &c, SCORE_V2);
    assert!(winners.is_empty());
}

#[test]
fn merge_into_empty_store_keeps_single_best_overall() {
    let c = competition();
    let subs = vec![
        submission(HD, 900_000, c.start_date + HOUR),
        submission(HD, 950_000, c.start_date + 2 * HOUR),
        submission(DT, 800_000, c.start_date + HOUR),
    ];
    let winners = select_best_per_mods(&subs, &c, SCORE_V2);
    let mut board = Leaderboard::new(42);
    board.merge_all(&winners);
    assert_eq!(board.len(), 1);
    let best = board.best_of(7).unwrap();
    assert_eq!(best.raw_score, 950_000);
    assert_eq!(best.mods, HD);
}

#[test]
fn merge_ignores_lower_candidate() {
    let c = competition();
    let mut board = Leaderboard::new(42);
    board.merge_one(submission(HD, 900_000, c.start_date + HOUR));
    let updated = board.merge_one(submission(DT, 850_000, c.start_date + 2 * HOUR));
    assert!(!updated);
    assert_eq!(board.len(), 1);
    assert_eq!(board.best_of(7).unwrap().raw_score, 900_000);
}

#[test]
fn merge_ignores_equal_candidate() {
    let c = competition();
    let mut board = Leaderboard::new(42);
    board.merge_one(submission(HD, 900_000, c.start_date + HOUR));
    let updated = board.merge_one(submission(HD, 900_000, c.start_date + 3 * HOUR));
    assert!(!updated);
    assert_eq!(board.best_of(7).unwrap().created_at, c.start_date + HOUR);
}

#[test]
fn merged_scores_never_decrease() {
    let c = competition();
    let mut board = Leaderboard::new(42);
    board.merge_one(submission(HD, 500_000, c.start_date + HOUR));
    let batches = vec![
        vec![submission(HD, 400_000, c.start_date + HOUR)],
        vec![
            submission(DT, 700_000, c.start_date + HOUR),
            submission(HD, 650_000, c.start_date + 2 * HOUR),
        ],
        vec![submission(0, 100, c.start_date + HOUR)],
        vec![submission(HD, 650_000, c.start_date + 2 * HOUR)],
    ];
    let mut prev_best = board.best_of(7).unwrap().raw_score;
    for batch in &batches {
        board.merge_all(batch);
        let best = board.best_of(7).unwrap().raw_score;
        assert!(best >= prev_best);
        prev_best = best;
    }
    assert_eq!(prev_best, 700_000);
}

#[test]
fn merge_keyed_per_participant() {
    let c = competition();
    let mut board = Leaderboard::new(42);
    let a = submission(HD, 100, c.start_date + HOUR);
    let b = Submission { participant_id: 8, raw_score: 50, ..a };
    board.merge_all(&vec![a, b]);
    assert_eq!(board.len(), 2);
    assert_eq!(board.best_of(7).unwrap().raw_score, 100);
    assert_eq!(board.best_of(8).unwrap().raw_score, 50);
    assert_eq!(board.best_of(9), None);
}

#[test]
fn from_rows_merges_duplicate_rows() {
    let c = competition();
    let rows = vec![
        submission(HD, 100, c.start_date + HOUR),
        submission(HD, 300, c.start_date + 2 * HOUR),
        submission(HD, 200, c.start_date + 3 * HOUR),
    ];
    let board = Leaderboard::from_rows(42, rows);
    assert_eq!(board.len(), 1);
    assert_eq!(board.best_of(7).unwrap().raw_score, 300);
}

#[test]
fn find_active_picks_first_live_row() {
    let past = Competition { map_id: 1, start_date: 0, end_date: 10 };
    let live = Competition { map_id: 2, start_date: 10, end_date: 20 };
    let future = Competition { map_id: 3, start_date: 30, end_date: 40 };
    let rows = vec![past, live, future];
    assert_eq!(find_active(&rows, 15), Some(live));
    assert_eq!(find_active(&rows, 25), None);
    assert_eq!(find_active(&rows, 35), Some(future));
    assert_eq!(find_active(&rows, 20), None);
    assert_eq!(find_active(&rows, 10), Some(live));
}

#[test]
fn about_to_end_fires_exactly_once_per_boundary() {
    let c = competition();
    let interval = 300;
    let near_end = c.end_date - 200;
    let (state, signals) = lifecycle_check(Some(&c), near_end, interval);
    assert_eq!(state, LifecycleState::Active);
    assert!(signals.about_to_end);
    assert!(!signals.just_started);

    let next_tick = near_end + interval;
    let (state, signals) = lifecycle_check(Some(&c), next_tick, interval);
    assert_eq!(state, LifecycleState::NoCompetition);
    assert!(!signals.about_to_end);
}

#[test]
fn just_started_fires_on_first_tick_only() {
    let c = competition();
    let interval = 300;
    let (_, signals) = lifecycle_check(Some(&c), c.start_date + 100, interval);
    assert!(signals.just_started);
    let (_, signals) = lifecycle_check(Some(&c), c.start_date + 100 + interval, interval);
    assert!(!signals.just_started);
}

#[test]
fn lifecycle_without_competition_is_quiet() {
    let (state, signals) = lifecycle_check(None, 123, 300);
    assert_eq!(state, LifecycleState::NoCompetition);
    assert!(!signals.just_started);
    assert!(!signals.about_to_end);
}

#[test]
fn degenerate_window_fires_both_signals() {
    let short = Competition { map_id: 5, start_date: 1000, end_date: 1100 };
    let (_, signals) = lifecycle_check(Some(&short), 1050, 300);
    assert!(signals.just_started);
    assert!(signals.about_to_end);
}

#[test]
fn collect_candidates_tags_each_participant() {
    let c = competition();
    let p1 = vec![
        submission(HD, 900_000, c.start_date + HOUR),
        submission(DT, 800_000, c.start_date + HOUR),
    ];
    let mut p2_best = submission(HD, 999_999, c.start_date + HOUR);
    p2_best.participant_id = 8;
    let p2 = vec![p2_best];
    let polled = vec![p1, p2, Vec::new()];
    let candidates = collect_candidates(&polled, &c, SCORE_V2);
    assert_eq!(candidates.len(), 3);
    assert_eq!(candidates[0].mods, HD);
    assert_eq!(candidates[1].mods, DT);
    assert_eq!(candidates[2].participant_id, 8);
}

#[test]
fn run_tick_merges_and_signals() {
    let c = competition();
    let polled = vec![vec![
        submission(HD, 900_000, c.start_date + HOUR),
        submission(HD, 950_000, c.start_date + 2 * HOUR),
        submission(DT, 800_000, c.start_date + HOUR),
    ]];
    let mut board = Leaderboard::new(42);
    let now = c.start_date + 100;
    let (state, signals) = run_tick(Some(&c), now, 300, &polled, SCORE_V2, &mut board);
    assert_eq!(state, LifecycleState::Active);
    assert!(signals.just_started);
    assert!(!signals.about_to_end);
    assert_eq!(board.len(), 1);
    assert_eq!(board.best_of(7).unwrap().raw_score, 950_000);
}

#[test]
fn run_tick_without_competition_changes_nothing() {
    let c = competition();
    let polled = vec![vec![submission(HD, 900_000, c.start_date + HOUR)]];
    let mut board = Leaderboard::new(42);
    let (state, signals) = run_tick(None, c.start_date + HOUR, 300, &polled, SCORE_V2, &mut board);
    assert_eq!(state, LifecycleState::NoCompetition);
    assert!(!signals.just_started && !signals.about_to_end);
    assert_eq!(board.len(), 0);
}
