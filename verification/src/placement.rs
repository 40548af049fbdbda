//! Where a row stands: the order in which rows are placed on a board.
//!
//! The position of a row is the number of rows placed before it. A row is
//! placed before another when its amount is greater, or when the amounts are
//! the same number and it came first in the input. This is a strict total
//! order on the rows of one input, so the positions of `n` rows are exactly
//! `0..n`, each taken once.

use crate::decimal::lemma_decimal_order;
use crate::entry::Row;
use vstd::prelude::*;

verus! {

/// Row `j` is placed before row `k`: it has the greater amount, or the same
/// amount and the smaller index.
pub open spec fn outranks(rows: Seq<Row>, j: int, k: int) -> bool {
    rows[k].amount.lt(rows[j].amount) || (rows[j].amount.same(rows[k].amount) && j < k)
}

/// How many of the first `upto` rows are placed before row `k`.
pub open spec fn ahead_among(rows: Seq<Row>, k: int, upto: nat) -> nat
    decreases upto,
{
    if upto == 0 {
        0
    } else {
        let rest = ahead_among(rows, k, (upto - 1) as nat);
        if outranks(rows, upto - 1, k) {
            rest + 1
        } else {
            rest
        }
    }
}

/// The position of row `k` on the board, counted from 0: the number of rows
/// placed before it.
pub open spec fn position_of(rows: Seq<Row>, k: int) -> nat {
    ahead_among(rows, k, rows.len())
}

/// The index of the row that stands at position `i` of the board.
pub open spec fn row_at(rows: Seq<Row>, i: int) -> int {
    choose|k: int| 0 <= k < rows.len() && position_of(rows, k) == i
}

/// `outranks` is a strict total order on indices: no row outranks itself, of
/// two different rows exactly one outranks the other, and outranking passes
/// on.
pub proof fn lemma_outranks_is_strict_total_order(rows: Seq<Row>, a: int, b: int, c: int)
    ensures
        !outranks(rows, a, a),
        a != b ==> (outranks(rows, a, b) <==> !outranks(rows, b, a)),
        outranks(rows, a, b) && outranks(rows, b, c) ==> outranks(rows, a, c),
        outranks(rows, a, b) ==> rows[b].amount.le(rows[a].amount),
{
    let x = rows[a].amount;
    let y = rows[b].amount;
    let z = rows[c].amount;
    lemma_decimal_order(x, x, x);
    lemma_decimal_order(x, y, z);
    lemma_decimal_order(y, x, x);
    lemma_decimal_order(z, y, x);
    lemma_decimal_order(x, z, z);
    lemma_decimal_order(z, x, x);
}

/// No more rows can be ahead than were counted, and a row is not ahead of
/// itself.
pub proof fn lemma_ahead_among_bound(rows: Seq<Row>, k: int, upto: nat)
    ensures
        ahead_among(rows, k, upto) <= upto,
        0 <= k < upto ==> ahead_among(rows, k, upto) < upto,
    decreases upto,
{
    if upto > 0 {
        lemma_ahead_among_bound(rows, k, (upto - 1) as nat);
        lemma_outranks_is_strict_total_order(rows, k, k, k);
    }
}

/// Whatever is ahead of a row is ahead of every row that it outranks, and so
/// is the row itself once it has been counted.
pub proof fn lemma_outranked_has_more_ahead(rows: Seq<Row>, a: int, b: int, upto: nat)
    requires
        outranks(rows, a, b),
    ensures
        ahead_among(rows, a, upto) <= ahead_among(rows, b, upto),
        0 <= a < upto ==> ahead_among(rows, a, upto) < ahead_among(rows, b, upto),
    decreases upto,
{
    if upto > 0 {
        lemma_outranked_has_more_ahead(rows, a, b, (upto - 1) as nat);
        lemma_outranks_is_strict_total_order(rows, upto - 1, a, b);
        lemma_outranks_is_strict_total_order(rows, a, a, b);
    }
}

/// Two different rows never share a position, and the one that outranks the
/// other has the smaller position.
pub proof fn lemma_positions_differ(rows: Seq<Row>, a: int, b: int)
    requires
        0 <= a < rows.len(),
        0 <= b < rows.len(),
        a != b,
    ensures
        position_of(rows, a) != position_of(rows, b),
        outranks(rows, a, b) <==> position_of(rows, a) < position_of(rows, b),
{
    lemma_outranks_is_strict_total_order(rows, a, b, a);
    if outranks(rows, a, b) {
        lemma_outranked_has_more_ahead(rows, a, b, rows.len());
    } else {
        lemma_outranked_has_more_ahead(rows, b, a, rows.len());
    }
}

/// Among the first `m` rows every position below `m` is taken: the result is
/// the row that takes position `i`.
pub proof fn lemma_position_is_taken(rows: Seq<Row>, m: nat, i: int) -> (k: int)
    requires
        0 <= i < m,
    ensures
        0 <= k < m,
        ahead_among(rows, k, m) == i,
    decreases m,
{
    let last = m - 1;
    let before = (m - 1) as nat;
    let p = ahead_among(rows, last, m) as int;
    lemma_outranks_is_strict_total_order(rows, last, last, last);
    lemma_ahead_among_bound(rows, last, before);
    if i == p {
        last
    } else if i < p {
        let k = lemma_position_is_taken(rows, before, i);
        if outranks(rows, last, k) {
            lemma_outranked_has_more_ahead(rows, last, k, m);
        }
        k
    } else {
        let k = lemma_position_is_taken(rows, before, i - 1);
        lemma_outranks_is_strict_total_order(rows, last, k, last);
        if !outranks(rows, last, k) {
            lemma_outranked_has_more_ahead(rows, k, last, m);
        }
        k
    }
}

/// Positions and rows correspond one to one: every position below the
/// number of rows holds a row, and that row has this position.
pub proof fn lemma_row_at(rows: Seq<Row>, i: int)
    requires
        0 <= i < rows.len(),
    ensures
        0 <= row_at(rows, i) < rows.len(),
        position_of(rows, row_at(rows, i)) == i,
{
    let k = lemma_position_is_taken(rows, rows.len(), i);
    assert(0 <= k < rows.len() && position_of(rows, k) == i);
}

/// Every row is on the board, at its position.
pub proof fn lemma_row_at_position(rows: Seq<Row>, k: int)
    requires
        0 <= k < rows.len(),
    ensures
        position_of(rows, k) < rows.len(),
        row_at(rows, position_of(rows, k) as int) == k,
{
    lemma_ahead_among_bound(rows, k, rows.len());
    let i = position_of(rows, k) as int;
    lemma_row_at(rows, i);
    if row_at(rows, i) != k {
        lemma_positions_differ(rows, row_at(rows, i), k);
    }
}

/// The board in order: the row at an earlier position outranks the row at a
/// later one.
pub proof fn lemma_earlier_outranks_later(rows: Seq<Row>, i: int, j: int)
    requires
        0 <= i < j < rows.len(),
    ensures
        outranks(rows, row_at(rows, i), row_at(rows, j)),
        rows[row_at(rows, j)].amount.le(rows[row_at(rows, i)].amount),
{
    lemma_row_at(rows, i);
    lemma_row_at(rows, j);
    let a = row_at(rows, i);
    let b = row_at(rows, j);
    lemma_positions_differ(rows, a, b);
    lemma_outranks_is_strict_total_order(rows, a, b, a);
}

} // verus!
