//! Ranking: from fetched rows to a leaderboard.

use crate::amount::Amount;
use crate::decimal::{lemma_decimal_order, lemma_pow10_positive, pow10, Decimal};
use crate::entry::{LeaderboardEntryResult, RankedRow, Row, UnrankedEntry};
use crate::percent::{lemma_ratio_ge_basics, lemma_ratio_grows_with_part, Percent, Ratio};
use crate::placement::{
    lemma_earlier_outranks_later, lemma_positions_differ, lemma_row_at, lemma_row_at_position,
    outranks, position_of, row_at,
};
use crate::sorting::board_order;
use vstd::prelude::*;

verus! {

/// The amount of the leader: of the row at position 0.
pub open spec fn leader_amount(rows: Seq<Row>) -> Decimal
    recommends
        rows.len() > 0,
{
    rows[row_at(rows, 0)].amount
}

/// An amount as a share of the leader's amount `top`.
///
/// Under a positive `top` it is `amount / top`. Where nobody has anything,
/// `top` and `amount` both zero, the entry is level with the leader and the
/// share is full. Otherwise (a leader at zero and an amount below, or a
/// leader below zero) no share can be formed and it is zero.
pub open spec fn distance_ratio(amount: Decimal, top: Decimal) -> Ratio {
    if top.is_positive() {
        Ratio { part: amount, whole: top }
    } else if top.is_zero() && amount.is_zero() {
        Ratio::full()
    } else {
        Ratio::zero()
    }
}

/// The share of a board of `n` entries that stands no higher than position
/// `i`: `(n - i) / n`.
pub open spec fn ranking_ratio(i: int, n: int) -> Ratio {
    Ratio {
        part: Decimal { unscaled: n - i, scale: 0 },
        whole: Decimal { unscaled: n, scale: 0 },
    }
}

/// The entry at position `i` of the board that `rows` make.
pub open spec fn ranked_row(rows: Seq<Row>, i: int) -> RankedRow {
    let row = rows[row_at(rows, i)];
    RankedRow {
        display_name: row.display_name,
        amount: row.amount,
        standing: (i + 1) as nat,
        percent_distance: distance_ratio(row.amount, leader_amount(rows)),
        percent_ranking: ranking_ratio(i, rows.len() as int),
    }
}

/// The leaderboard that `rows` make: every row once, from the highest amount
/// to the lowest, rows of the same amount in the order of the input.
pub open spec fn leaderboard(rows: Seq<Row>) -> Seq<RankedRow> {
    Seq::new(rows.len(), |i: int| ranked_row(rows, i))
}

/// No entry has a greater amount than an entry above it.
pub open spec fn sorted_by_amount(board: Seq<RankedRow>) -> bool {
    forall|i: int, j: int|
        #![trigger board[i], board[j]]
        0 <= i < j < board.len() ==> board[j].amount.le(board[i].amount)
}

/// The standings are 1, 2, 3 and so on, down the board.
pub open spec fn standings_count_up(board: Seq<RankedRow>) -> bool {
    forall|i: int| 0 <= i < board.len() ==> (#[trigger] board[i]).standing == i + 1
}

/// Neither percentage is greater than in an entry above.
pub open spec fn percents_never_rise(board: Seq<RankedRow>) -> bool {
    forall|i: int, j: int|
        #![trigger board[i], board[j]]
        0 <= i < j < board.len() ==> board[i].percent_distance.ge(board[j].percent_distance)
            && board[i].percent_ranking.ge(board[j].percent_ranking)
}

/// Both percentages are numbers, the percentile lies in 0..=100, and so does
/// the distance of every entry whose amount is not negative.
pub open spec fn percents_in_range(board: Seq<RankedRow>) -> bool {
    forall|i: int|
        #![trigger board[i]]
        0 <= i < board.len() ==> {
            &&& board[i].percent_distance.wf()
            &&& board[i].percent_ranking.wf()
            &&& board[i].percent_ranking.within_unit()
            &&& !board[i].percent_ranking.is_zero()
            &&& !board[i].amount.is_negative() ==> board[i].percent_distance.within_unit()
        }
}

/// A whole number is its own lifted integer at scale 0, so whole numbers
/// compare as their integers do.
proof fn lemma_whole_numbers(a: int, b: int)
    ensures
        (Decimal { unscaled: a, scale: 0 }).le(Decimal { unscaled: b, scale: 0 }) <==> a <= b,
        (Decimal { unscaled: a, scale: 0 }).same(Decimal { unscaled: b, scale: 0 }) <==> a == b,
{
    let unit = pow10(0);
    assert(a * unit == a && b * unit == b) by (nonlinear_arith)
        requires
            unit == 1,
    ;
}

/// A number that is neither below zero nor above a zero is zero.
proof fn lemma_between_zeros(low: Decimal, mid: Decimal, high: Decimal)
    requires
        low.is_zero(),
        high.is_zero(),
        low.le(mid),
        mid.le(high),
    ensures
        mid.is_zero(),
{
    let j = mid.joint_scale(high);
    let p = pow10((j - mid.scale) as nat);
    let q = pow10((j - high.scale) as nat);
    lemma_pow10_positive((j - mid.scale) as nat);
    let i = low.joint_scale(mid);
    let r = pow10((i - mid.scale) as nat);
    let s = pow10((i - low.scale) as nat);
    lemma_pow10_positive((i - mid.scale) as nat);
    let m = mid.unscaled;
    assert(m * p <= 0 * q && 0 * s <= m * r ==> m == 0) by (nonlinear_arith)
        requires
            p >= 1,
            r >= 1,
    ;
}

/// Nobody stands above the leader: every amount is at most the leader's.
pub proof fn lemma_leader_is_highest(rows: Seq<Row>, k: int)
    requires
        0 <= k < rows.len(),
    ensures
        rows[k].amount.le(leader_amount(rows)),
{
    lemma_row_at_position(rows, k);
    let i = position_of(rows, k) as int;
    if i == 0 {
        let x = rows[k].amount;
        lemma_decimal_order(x, x, x);
    } else {
        lemma_earlier_outranks_later(rows, 0, i);
    }
}

/// A leaderboard has one entry for each row: none for no rows.
pub proof fn lemma_leaderboard_keeps_length(rows: Seq<Row>)
    ensures
        leaderboard(rows).len() == rows.len(),
        rows.len() == 0 ==> leaderboard(rows) =~= Seq::<RankedRow>::empty(),
{
}

/// A leaderboard is sorted by amount from the highest down, and its
/// standings count up from 1.
pub proof fn lemma_leaderboard_is_sorted(rows: Seq<Row>)
    ensures
        sorted_by_amount(leaderboard(rows)),
        standings_count_up(leaderboard(rows)),
{
    let board = leaderboard(rows);
    assert forall|i: int, j: int|
        #![trigger board[i], board[j]]
        0 <= i < j < board.len() implies board[j].amount.le(board[i].amount) by {
        lemma_earlier_outranks_later(rows, i, j);
    }
}

/// Every row is on the board, with its name and its amount, at the position
/// that the number of rows placed before it gives.
pub proof fn lemma_every_row_is_placed(rows: Seq<Row>, k: int)
    requires
        0 <= k < rows.len(),
    ensures
        position_of(rows, k) < rows.len(),
        leaderboard(rows)[position_of(rows, k) as int].display_name == rows[k].display_name,
        leaderboard(rows)[position_of(rows, k) as int].amount == rows[k].amount,
        leaderboard(rows)[position_of(rows, k) as int].standing == position_of(rows, k) + 1,
{
    lemma_row_at_position(rows, k);
}

/// Rows of the same amount stand in the order of the input.
pub proof fn lemma_ties_keep_input_order(rows: Seq<Row>, j: int, k: int)
    requires
        0 <= j < k < rows.len(),
        rows[j].amount.same(rows[k].amount),
    ensures
        position_of(rows, j) < position_of(rows, k),
{
    assert(outranks(rows, j, k));
    lemma_positions_differ(rows, j, k);
}

/// The leader's percentile is a hundred, and so is the leader's distance
/// unless the leader's amount is negative.
pub proof fn lemma_leader_is_full(rows: Seq<Row>)
    requires
        rows.len() > 0,
    ensures
        leaderboard(rows)[0].standing == 1,
        leaderboard(rows)[0].amount == leader_amount(rows),
        leaderboard(rows)[0].percent_ranking.is_full(),
        !leader_amount(rows).is_negative() ==> leaderboard(rows)[0].percent_distance.is_full(),
        leader_amount(rows).is_negative() ==> leaderboard(rows)[0].percent_distance.is_zero(),
{
    let n = rows.len() as int;
    let top = leader_amount(rows);
    lemma_whole_numbers(n, n);
    lemma_decimal_order(top, top, top);
    lemma_ratio_ge_basics(Ratio::full());
}

/// Down the board neither percentage rises.
pub proof fn lemma_percents_never_rise(rows: Seq<Row>)
    ensures
        percents_never_rise(leaderboard(rows)),
{
    let board = leaderboard(rows);
    let n = rows.len() as int;
    let top = leader_amount(rows);
    assert forall|i: int, j: int|
        #![trigger board[i], board[j]]
        0 <= i < j < board.len() implies board[i].percent_distance.ge(board[j].percent_distance)
        && board[i].percent_ranking.ge(board[j].percent_ranking) by {
        let high = board[i].amount;
        let low = board[j].amount;
        lemma_whole_numbers(n - j, n - i);
        lemma_ratio_grows_with_part(
            Decimal { unscaled: n - j, scale: 0 },
            Decimal { unscaled: n - i, scale: 0 },
            Decimal { unscaled: n, scale: 0 },
        );
        lemma_earlier_outranks_later(rows, i, j);
        lemma_ratio_ge_basics(Ratio::zero());
        lemma_ratio_ge_basics(Ratio::full());
        if top.is_positive() {
            lemma_ratio_grows_with_part(low, high, top);
        } else if top.is_zero() && low.is_zero() {
            lemma_row_at(rows, i);
            lemma_leader_is_highest(rows, row_at(rows, i));
            lemma_between_zeros(low, high, top);
        }
    }
}

/// The percentages of a leaderboard are numbers within their range.
pub proof fn lemma_percents_in_range(rows: Seq<Row>)
    ensures
        percents_in_range(leaderboard(rows)),
{
    let board = leaderboard(rows);
    let n = rows.len() as int;
    let top = leader_amount(rows);
    assert forall|i: int| #![trigger board[i]] 0 <= i < board.len() implies {
        &&& board[i].percent_distance.wf()
        &&& board[i].percent_ranking.wf()
        &&& board[i].percent_ranking.within_unit()
        &&& !board[i].percent_ranking.is_zero()
        &&& !board[i].amount.is_negative() ==> board[i].percent_distance.within_unit()
    } by {
        lemma_whole_numbers(n - i, n);
        lemma_ratio_ge_basics(Ratio::zero());
        lemma_row_at(rows, i);
        lemma_leader_is_highest(rows, row_at(rows, i));
    }
}

/// `amount` as a percentage of the leader's amount `top`.
pub fn percent_distance(amount: Amount, top: Amount) -> (p: Percent)
    ensures
        p@ == distance_ratio(amount@, top@),
{
    if top.is_positive() {
        Percent::of(amount, top)
    } else if top.is_zero() && amount.is_zero() {
        Percent::full()
    } else {
        Percent::zero()
    }
}

/// The percentile of position `position` on a board of `count` entries.
pub fn percent_ranking(position: usize, count: usize) -> (p: Percent)
    requires
        position < count,
    ensures
        p@ == ranking_ratio(position as int, count as int),
{
    Percent::of(
        Amount::from_integer((count - position) as i128),
        Amount::from_integer(count as i128),
    )
}

/// Ranks `entries`: the leaderboard that they make.
///
/// The board holds every entry once, from the highest amount to the lowest.
/// Entries of the same amount keep the order in which they were given.
/// Standings count up from 1; the leader stands at a hundred percent, and
/// no percentage rises further down. No entries give an empty board.
pub fn rank(entries: &Vec<UnrankedEntry>) -> (board: Vec<LeaderboardEntryResult>)
    ensures
        board.deep_view() == leaderboard(entries.deep_view()),
        board@.len() == entries@.len(),
        forall|i: int|
            0 <= i < board@.len() ==> (#[trigger] board@[i])@ == ranked_row(
                entries.deep_view(),
                i,
            ),
        forall|k: int|
            0 <= k < entries@.len() ==> {
                let i = position_of(entries.deep_view(), k) as int;
                &&& i < board@.len()
                &&& board@[i]@.display_name == (#[trigger] entries@[k]).display_name@
                &&& board@[i]@.amount == entries@[k].amount@
                &&& board@[i]@.standing == i + 1
            },
        sorted_by_amount(board.deep_view()),
        standings_count_up(board.deep_view()),
        percents_never_rise(board.deep_view()),
        percents_in_range(board.deep_view()),
        entries@.len() > 0 ==> board@[0]@.percent_ranking.is_full(),
        entries@.len() > 0 && !board@[0]@.amount.is_negative()
            ==> board@[0]@.percent_distance.is_full(),
{
    let ghost rows = entries.deep_view();
    let n = entries.len();
    let mut board: Vec<LeaderboardEntryResult> = Vec::new();
    if n > 0 {
        let order = board_order(entries);
        proof {
            assert forall|i: int| 0 <= i < n implies 0 <= #[trigger] order@[i] < n by {
                lemma_row_at(rows, i);
            }
        }
        let top = entries[order[0]].amount;
        let mut i: usize = 0;
        while i < n
            invariant
                rows == entries.deep_view(),
                n == entries.len(),
                n == order.len(),
                0 < n,
                i <= n,
                board.len() == i,
                top@ == leader_amount(rows),
                forall|t: int| 0 <= t < n ==> 0 <= #[trigger] order@[t] < n,
                forall|t: int| 0 <= t < n ==> #[trigger] order@[t] as int == row_at(rows, t),
                forall|t: int| 0 <= t < i ==> (#[trigger] board@[t])@ == ranked_row(rows, t),
            decreases n - i,
        {
            let entry = &entries[order[i]];
            let line = LeaderboardEntryResult {
                display_name: entry.display_name.clone(),
                amount: entry.amount,
                standing: (i + 1) as u64,
                percent_distance: percent_distance(entry.amount, top),
                percent_ranking: percent_ranking(i, n),
            };
            proof {
                assert(rows[order@[i as int] as int] == entry@);
                assert(line@ == ranked_row(rows, i as int));
            }
            board.push(line);
            i = i + 1;
        }
    }
    proof {
        assert(board.deep_view() =~= leaderboard(rows));
        assert forall|k: int| 0 <= k < entries@.len() implies {
            let i = position_of(rows, k) as int;
            &&& i < board@.len()
            &&& board@[i]@.display_name == (#[trigger] entries@[k]).display_name@
            &&& board@[i]@.amount == entries@[k].amount@
            &&& board@[i]@.standing == i + 1
        } by {
            lemma_every_row_is_placed(rows, k);
            assert(rows[k] == entries@[k]@);
        }
        lemma_leaderboard_is_sorted(rows);
        lemma_percents_never_rise(rows);
        lemma_percents_in_range(rows);
        if n > 0 {
            lemma_leader_is_full(rows);
        }
    }
    board
}

} // verus!
