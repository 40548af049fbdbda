//! The fail-soft policy of the leaderboard requests.
//!
//! A request never fails. When the rows could not be fetched the caller gets
//! an empty board, and the failure is handed back once, to be recorded by
//! whoever made the fetch.

use crate::entry::{LeaderboardEntryResult, RankedRow, UnrankedEntry};
use crate::ranking::{leaderboard, rank, ranked_row};
use vstd::prelude::*;

verus! {

/// The two leaderboards that can be asked for.
#[derive(Clone, Copy, Debug, PartialEq, Eq, Structural)]
pub enum Category {
    Titles,
    Raids,
}

/// What a request comes to.
#[derive(Debug)]
pub struct Outcome<E> {
    /// The leaderboard that was asked for.
    pub category: Category,
    /// The board for the caller: empty after a failed fetch.
    pub entries: Vec<LeaderboardEntryResult>,
    /// The failure to record: there is one exactly when the fetch failed.
    pub failure: Option<E>,
}

/// The board that the caller sees: the leaderboard of what was fetched, and
/// nothing where the fetch failed.
pub open spec fn board_served<E>(fetched: Result<Vec<UnrankedEntry>, E>) -> Seq<RankedRow> {
    match fetched {
        Ok(rows) => leaderboard(rows.deep_view()),
        Err(_) => Seq::empty(),
    }
}

/// The failures to record: the one of the fetch, and none where it went
/// well.
pub open spec fn failures_recorded<E>(fetched: Result<Vec<UnrankedEntry>, E>) -> Seq<E> {
    match fetched {
        Ok(_) => Seq::empty(),
        Err(failure) => seq![failure],
    }
}

impl<E> Outcome<E> {
    /// The failures that this outcome asks to record, in order.
    pub open spec fn recorded(self) -> Seq<E> {
        match self.failure {
            Some(failure) => seq![failure],
            None => Seq::empty(),
        }
    }
}

/// Ranks what a fetch for `category` came back with, or absorbs its failure.
pub fn rank_fetched<E>(category: Category, fetched: Result<Vec<UnrankedEntry>, E>) -> (out: Outcome<
    E,
>)
    ensures
        out.category == category,
        out.entries.deep_view() == board_served(fetched),
        out.recorded() == failures_recorded(fetched),
        fetched is Err ==> out.entries@.len() == 0 && out.failure == Some(fetched->Err_0),
        fetched is Ok ==> out.failure is None && out.entries@.len() == fetched->Ok_0@.len(),
        fetched is Ok ==> forall|i: int|
            0 <= i < out.entries@.len() ==> (#[trigger] out.entries@[i])@ == ranked_row(
                fetched->Ok_0.deep_view(),
                i,
            ),
{
    match fetched {
        Ok(rows) => {
            let entries = rank(&rows);
            Outcome { category, entries, failure: None }
        },
        Err(failure) => {
            let entries: Vec<LeaderboardEntryResult> = Vec::new();
            assert(entries.deep_view() =~= Seq::<RankedRow>::empty());
            Outcome { category, entries, failure: Some(failure) }
        },
    }
}

/// The titles leaderboard from what its fetch came back with.
///
/// Fetched rows are ranked. A failed fetch gives an empty board and the
/// failure to record, once.
pub fn titles<E>(fetched: Result<Vec<UnrankedEntry>, E>) -> (out: Outcome<E>)
    ensures
        out.category == Category::Titles,
        out.entries.deep_view() == board_served(fetched),
        out.recorded() == failures_recorded(fetched),
        fetched is Err ==> out.entries@.len() == 0 && out.failure == Some(fetched->Err_0),
        fetched is Ok ==> out.failure is None && out.entries@.len() == fetched->Ok_0@.len(),
        fetched is Ok ==> forall|i: int|
            0 <= i < out.entries@.len() ==> (#[trigger] out.entries@[i])@ == ranked_row(
                fetched->Ok_0.deep_view(),
                i,
            ),
{
    rank_fetched(Category::Titles, fetched)
}

/// The raids leaderboard from what its fetch came back with.
///
/// Fetched rows are ranked. A failed fetch gives an empty board and the
/// failure to record, once.
pub fn raids<E>(fetched: Result<Vec<UnrankedEntry>, E>) -> (out: Outcome<E>)
    ensures
        out.category == Category::Raids,
        out.entries.deep_view() == board_served(fetched),
        out.recorded() == failures_recorded(fetched),
        fetched is Err ==> out.entries@.len() == 0 && out.failure == Some(fetched->Err_0),
        fetched is Ok ==> out.failure is None && out.entries@.len() == fetched->Ok_0@.len(),
        fetched is Ok ==> forall|i: int|
            0 <= i < out.entries@.len() ==> (#[trigger] out.entries@[i])@ == ranked_row(
                fetched->Ok_0.deep_view(),
                i,
            ),
{
    rank_fetched(Category::Raids, fetched)
}

} // verus!
