//! What goes into a ranking and what comes out of it.

use crate::amount::Amount;
use crate::decimal::Decimal;
use crate::percent::{Percent, Ratio};
use vstd::prelude::*;

verus! {

/// A member's total before ranking: one row of what was fetched.
#[derive(Clone, Debug, PartialEq, Eq)]
pub struct UnrankedEntry {
    pub display_name: String,
    pub amount: Amount,
}

/// The model of an [`UnrankedEntry`].
pub struct Row {
    pub display_name: Seq<char>,
    pub amount: Decimal,
}

impl View for UnrankedEntry {
    type V = Row;

    open spec fn view(&self) -> Row {
        Row { display_name: self.display_name@, amount: self.amount@ }
    }
}

impl DeepView for UnrankedEntry {
    type V = Row;

    open spec fn deep_view(&self) -> Row {
        self@
    }
}

/// One line of a leaderboard.
#[derive(Clone, Debug, PartialEq, Eq)]
pub struct LeaderboardEntryResult {
    pub display_name: String,
    /// The member's total, as it was fetched.
    pub amount: Amount,
    /// The rank, counted from 1 for the highest amount.
    pub standing: u64,
    /// The amount as a percentage of the leader's amount.
    pub percent_distance: Percent,
    /// The share of the board that stands no higher than this entry.
    pub percent_ranking: Percent,
}

/// The model of a [`LeaderboardEntryResult`].
pub struct RankedRow {
    pub display_name: Seq<char>,
    pub amount: Decimal,
    pub standing: nat,
    pub percent_distance: Ratio,
    pub percent_ranking: Ratio,
}

impl View for LeaderboardEntryResult {
    type V = RankedRow;

    open spec fn view(&self) -> RankedRow {
        RankedRow {
            display_name: self.display_name@,
            amount: self.amount@,
            standing: self.standing as nat,
            percent_distance: self.percent_distance@,
            percent_ranking: self.percent_ranking@,
        }
    }
}

impl DeepView for LeaderboardEntryResult {
    type V = RankedRow;

    open spec fn deep_view(&self) -> RankedRow {
        self@
    }
}

impl UnrankedEntry {
    /// The row of the member `display_name` with the total `amount`.
    pub fn new(display_name: String, amount: Amount) -> (e: UnrankedEntry)
        ensures
            e@ == (Row { display_name: display_name@, amount: amount@ }),
    {
        UnrankedEntry { display_name, amount }
    }
}

} // verus!
