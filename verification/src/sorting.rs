//! Putting the rows in order: a merge sort over row indices.
//!
//! The rows themselves stay where they are. What is sorted is the list of
//! their indices, by amount from the highest down; rows of the same amount
//! keep the order of their indices, so the sort is stable.

use crate::decimal::lemma_decimal_order;
use crate::entry::{Row, UnrankedEntry};
use crate::placement::{
    lemma_ahead_among_bound, lemma_outranked_has_more_ahead, lemma_outranks_is_strict_total_order,
    lemma_row_at_position, outranks, position_of, row_at,
};
use vstd::prelude::*;

verus! {

/// `run` lists `hi - lo` rows out of `lo..hi`, each before all the rows
/// that it outranks. Such a run holds every row of `lo..hi` once.
pub open spec fn is_ranked_run(rows: Seq<Row>, run: Seq<usize>, lo: int, hi: int) -> bool {
    &&& run.len() == hi - lo
    &&& forall|t: int| 0 <= t < run.len() ==> lo <= #[trigger] run[t] < hi
    &&& forall|s: int, t: int|
        #![trigger run[s], run[t]]
        0 <= s < t < run.len() ==> outranks(rows, run[s] as int, run[t] as int)
}

/// In a ranked run of all the rows, a row is at least as far down as it is
/// in the run.
proof fn lemma_run_positions_from_below(rows: Seq<Row>, run: Seq<usize>, i: int)
    requires
        is_ranked_run(rows, run, 0, rows.len() as int),
        0 <= i < run.len(),
    ensures
        position_of(rows, run[i] as int) >= i,
    decreases i,
{
    if i > 0 {
        lemma_run_positions_from_below(rows, run, i - 1);
        lemma_outranked_has_more_ahead(rows, run[i - 1] as int, run[i] as int, rows.len());
    }
}

/// In a ranked run of all the rows, a row is at most as far down as it is
/// in the run.
proof fn lemma_run_positions_from_above(rows: Seq<Row>, run: Seq<usize>, i: int)
    requires
        is_ranked_run(rows, run, 0, rows.len() as int),
        0 <= i < run.len(),
    ensures
        position_of(rows, run[i] as int) <= i,
    decreases run.len() - i,
{
    if i == run.len() - 1 {
        lemma_ahead_among_bound(rows, run[i] as int, rows.len());
    } else {
        lemma_run_positions_from_above(rows, run, i + 1);
        lemma_outranked_has_more_ahead(rows, run[i] as int, run[i + 1] as int, rows.len());
    }
}

/// A ranked run of all the rows is the board: its `i`-th index is the row
/// at position `i`.
pub proof fn lemma_ranked_run_is_the_board(rows: Seq<Row>, run: Seq<usize>)
    requires
        is_ranked_run(rows, run, 0, rows.len() as int),
    ensures
        forall|i: int| 0 <= i < run.len() ==> #[trigger] run[i] as int == row_at(rows, i),
{
    assert forall|i: int| 0 <= i < run.len() implies #[trigger] run[i] as int == row_at(
        rows,
        i,
    ) by {
        lemma_run_positions_from_below(rows, run, i);
        lemma_run_positions_from_above(rows, run, i);
        lemma_row_at_position(rows, run[i] as int);
    }
}

/// Merges two ranked runs of neighbouring ranges into one. Where the two
/// heads have the same amount the left one goes first: its index is the
/// smaller.
fn merge_runs(
    entries: &Vec<UnrankedEntry>,
    left: &Vec<usize>,
    right: &Vec<usize>,
    Ghost(lo): Ghost<int>,
    Ghost(mid): Ghost<int>,
    Ghost(hi): Ghost<int>,
) -> (run: Vec<usize>)
    requires
        0 <= lo <= mid <= hi <= entries.len(),
        is_ranked_run(entries.deep_view(), left@, lo, mid),
        is_ranked_run(entries.deep_view(), right@, mid, hi),
    ensures
        is_ranked_run(entries.deep_view(), run@, lo, hi),
{
    let ghost rows = entries.deep_view();
    let mut run: Vec<usize> = Vec::new();
    let mut i: usize = 0;
    let mut j: usize = 0;
    while i < left.len() || j < right.len()
        invariant
            rows == entries.deep_view(),
            0 <= lo <= mid <= hi <= entries.len(),
            is_ranked_run(rows, left@, lo, mid),
            is_ranked_run(rows, right@, mid, hi),
            i <= left.len(),
            j <= right.len(),
            run.len() == i + j,
            forall|t: int| 0 <= t < run.len() ==> lo <= #[trigger] run@[t] < hi,
            forall|s: int, t: int|
                #![trigger run@[s], run@[t]]
                0 <= s < t < run.len() ==> outranks(rows, run@[s] as int, run@[t] as int),
            forall|s: int, t: int|
                #![trigger run@[s], left@[t]]
                0 <= s < run.len() && i <= t < left.len() ==> outranks(
                    rows,
                    run@[s] as int,
                    left@[t] as int,
                ),
            forall|s: int, t: int|
                #![trigger run@[s], right@[t]]
                0 <= s < run.len() && j <= t < right.len() ==> outranks(
                    rows,
                    run@[s] as int,
                    right@[t] as int,
                ),
        decreases left.len() + right.len() - i - j,
    {
        let from_left = if j == right.len() {
            true
        } else if i == left.len() {
            false
        } else {
            !entries[left[i]].amount.lt(&entries[right[j]].amount)
        };
        let next = if from_left {
            left[i]
        } else {
            right[j]
        };
        let ghost i_after = if from_left {
            i + 1
        } else {
            i as int
        };
        let ghost j_after = if from_left {
            j as int
        } else {
            j + 1
        };
        proof {
            if i < left.len() && j < right.len() {
                let l = left@[i as int] as int;
                let r = right@[j as int] as int;
                assert(rows[l].amount == entries@[l].amount@);
                assert(rows[r].amount == entries@[r].amount@);
                lemma_decimal_order(rows[r].amount, rows[l].amount, rows[l].amount);
                lemma_decimal_order(rows[l].amount, rows[r].amount, rows[r].amount);
                assert(from_left ==> outranks(rows, l, r));
                assert(!from_left ==> outranks(rows, r, l));
            }
            assert forall|t: int| i_after <= t < left.len() implies outranks(
                rows,
                next as int,
                #[trigger] left@[t] as int,
            ) by {
                if !from_left {
                    lemma_outranks_is_strict_total_order(
                        rows,
                        next as int,
                        left@[i as int] as int,
                        left@[t] as int,
                    );
                }
            }
            assert forall|t: int| j_after <= t < right.len() implies outranks(
                rows,
                next as int,
                #[trigger] right@[t] as int,
            ) by {
                if from_left {
                    lemma_outranks_is_strict_total_order(
                        rows,
                        next as int,
                        right@[j as int] as int,
                        right@[t] as int,
                    );
                }
            }
        }
        run.push(next);
        if from_left {
            i = i + 1;
        } else {
            j = j + 1;
        }
    }
    run
}

/// The rows `lo..hi` in board order.
fn ranked_run(entries: &Vec<UnrankedEntry>, lo: usize, hi: usize) -> (run: Vec<usize>)
    requires
        lo <= hi <= entries.len(),
    ensures
        is_ranked_run(entries.deep_view(), run@, lo as int, hi as int),
    decreases hi - lo,
{
    if hi - lo <= 1 {
        let mut run: Vec<usize> = Vec::new();
        if hi - lo == 1 {
            run.push(lo);
        }
        run
    } else {
        let mid = lo + (hi - lo) / 2;
        let left = ranked_run(entries, lo, mid);
        let right = ranked_run(entries, mid, hi);
        merge_runs(entries, &left, &right, Ghost(lo as int), Ghost(mid as int), Ghost(hi as int))
    }
}

/// The order of the board: the `i`-th element of the result is the index of
/// the row that stands at position `i`.
///
/// A stable merge sort, by amount from the highest down.
pub fn board_order(entries: &Vec<UnrankedEntry>) -> (order: Vec<usize>)
    ensures
        order@.len() == entries@.len(),
        forall|i: int|
            0 <= i < order@.len() ==> #[trigger] order@[i] as int == row_at(
                entries.deep_view(),
                i,
            ),
{
    let order = ranked_run(entries, 0, entries.len());
    proof {
        lemma_ranked_run_is_the_board(entries.deep_view(), order@);
    }
    order
}

} // verus!
