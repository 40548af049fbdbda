//! A leaderboard ranker.
//!
//! Given the raw totals of the members of a network (a display name and a
//! decimal amount each), [`rank`] orders them from the highest amount to the
//! lowest and annotates every entry with its standing, its amount as a
//! percentage of the leader's, and its percentile among all entries.
//! [`titles`] and [`raids`] put the fail-soft policy of the two leaderboard
//! categories in front of it: a failed fetch gives an empty board and the
//! failure to report, never an error.
//!
//! Every function is verified against the mathematical model that its
//! contract names; see [`leaderboard`] for what a ranking is.

pub mod amount;
pub mod decimal;
pub mod entry;
pub mod failsoft;
pub mod percent;
pub mod placement;
pub mod ranking;
pub mod sorting;

pub use amount::{Amount, Sign};
pub use decimal::{pow10, Decimal};
pub use entry::{LeaderboardEntryResult, RankedRow, Row, UnrankedEntry};
pub use failsoft::{raids, rank_fetched, titles, Category, Outcome};
pub use percent::{Percent, Ratio};
pub use ranking::{leaderboard, percent_distance, percent_ranking, rank};
