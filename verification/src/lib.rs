//! Competition-tracking and scoring engine for an osu! community bot.
//!
//! The library owns the logic of a periodically ticked tracking pipeline:
//! deciding which submissions are eligible for the active competition,
//! selecting the best submission per mods combination, merging strict
//! improvements into a persisted leaderboard, announcing the start and end
//! of a competition window, caching beatmap artifacts with bounded
//! exponential-backoff retries, and memoizing difficulty attributes per
//! mods value. Chat-message pattern matching for ids, mentions and emotes
//! lives in [`matcher`].

pub mod artifact;
pub mod assoc;
pub mod attributes;
pub mod backoff;
pub mod directory;
pub mod eligibility;
pub mod engine;
pub mod leaderboard;
pub mod lifecycle;
pub mod matcher;
pub mod model;
pub mod parse;
pub mod presence;
