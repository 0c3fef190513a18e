//! What it means for two orders to cross, the match matrix of two books in
//! plaintext, and the laws of both. The encrypted evaluation is held to
//! these definitions.

use crate::common::Order;
use vstd::arithmetic::div_mod::{lemma_fundamental_div_mod, lemma_fundamental_div_mod_converse};
use vstd::prelude::*;

verus! {

/// Which fields of two orders are compared.
#[derive(Clone, Copy, Debug, PartialEq, Eq)]
pub enum MatchScope {
    /// Price and side only: the traded pair is public and the same for all.
    PriceAndSide,
    /// Price, side and both identifiers of the traded pair.
    WithAssetPair,
}

/// Two orders cross when they name the same price from opposite sides and,
/// where the scope asks for it, the same asset pair.
pub open spec fn crosses(scope: MatchScope, a: Order, b: Order) -> bool {
    &&& a.price == b.price
    &&& a.a_for_b != b.a_for_b
    &&& scope is WithAssetPair ==> a.asset_a == b.asset_a && a.asset_b == b.asset_b
}

/// The position of cell (`row`, `col`) in a row-major matrix with `cols` columns.
pub open spec fn flat_index(row: int, col: int, cols: int) -> int {
    row * cols + col
}

/// The match matrix of two books in plaintext, row-major: cell
/// `i * cols.len() + j` says whether `rows[i]` and `cols[j]` cross.
pub open spec fn plain_matrix(scope: MatchScope, rows: Seq<Order>, cols: Seq<Order>) -> Seq<bool> {
    Seq::new(
        rows.len() * cols.len(),
        |k: int| crosses(scope, rows[k / (cols.len() as int)], cols[k % (cols.len() as int)]),
    )
}

/// Whether at least one cell is set.
pub open spec fn any_true(cells: Seq<bool>) -> bool {
    exists|k: int| 0 <= k < cells.len() && #[trigger] cells[k]
}

/// Whether any order of `rows` crosses any order of `cols`.
pub open spec fn any_cross(scope: MatchScope, rows: Seq<Order>, cols: Seq<Order>) -> bool {
    any_true(plain_matrix(scope, rows, cols))
}

/// Decides in plaintext whether two orders cross.
pub fn orders_cross(scope: MatchScope, a: &Order, b: &Order) -> (r: bool)
    ensures
        r == crosses(scope, *a, *b),
{
    let pair_agrees = match scope {
        MatchScope::PriceAndSide => true,
        MatchScope::WithAssetPair => a.asset_a == b.asset_a && a.asset_b == b.asset_b,
    };
    a.price == b.price && a.a_for_b != b.a_for_b && pair_agrees
}

/// Row-major indexing is a bijection between the pairs (`row`, `col`) inside
/// a `rows` x `cols` grid and the positions below `rows * cols`: this is the
/// direction from a pair to its position.
pub proof fn lemma_flat_index(row: int, col: int, rows: int, cols: int)
    requires
        0 <= row < rows,
        0 <= col < cols,
    ensures
        0 <= flat_index(row, col, cols) < rows * cols,
        flat_index(row, col, cols) / cols == row,
        flat_index(row, col, cols) % cols == col,
{
    assert(row * cols + col < rows * cols && 0 <= row * cols) by (nonlinear_arith)
        requires
            0 <= row < rows,
            0 <= col < cols,
    ;
    lemma_fundamental_div_mod_converse(row * cols + col, cols, row, col);
}

/// The direction from a position to its pair.
pub proof fn lemma_unflatten(k: int, rows: int, cols: int)
    requires
        0 <= k < rows * cols,
        0 <= rows,
        0 <= cols,
    ensures
        0 < cols,
        0 <= k / cols < rows,
        0 <= k % cols < cols,
        flat_index(k / cols, k % cols, cols) == k,
{
    assert(cols != 0) by (nonlinear_arith)
        requires
            0 <= k < rows * cols,
    ;
    lemma_fundamental_div_mod(k, cols);
    let q = k / cols;
    assert(0 <= q < rows) by (nonlinear_arith)
        requires
            0 <= k < rows * cols,
            0 < cols,
            k == cols * q + k % cols,
            0 <= k % cols < cols,
    ;
    assert(cols * q == q * cols) by (nonlinear_arith);
}

/// Cell (`i`, `j`) of the plaintext matrix is the crossing of `rows[i]` and `cols[j]`.
pub proof fn lemma_plain_cell(scope: MatchScope, rows: Seq<Order>, cols: Seq<Order>, i: int, j: int)
    requires
        0 <= i < rows.len(),
        0 <= j < cols.len(),
    ensures
        0 <= flat_index(i, j, cols.len() as int) < plain_matrix(scope, rows, cols).len(),
        plain_matrix(scope, rows, cols)[flat_index(i, j, cols.len() as int)] == crosses(
            scope,
            rows[i],
            cols[j],
        ),
{
    lemma_flat_index(i, j, rows.len() as int, cols.len() as int);
}

/// Two books have a crossing exactly when some pair of their orders crosses.
pub proof fn lemma_any_cross_is_some_pair(scope: MatchScope, rows: Seq<Order>, cols: Seq<Order>)
    ensures
        any_cross(scope, rows, cols) <==> exists|i: int, j: int|
            0 <= i < rows.len() && 0 <= j < cols.len() && crosses(
                scope,
                #[trigger] rows[i],
                #[trigger] cols[j],
            ),
{
    let m = plain_matrix(scope, rows, cols);
    let n = cols.len() as int;
    if any_cross(scope, rows, cols) {
        let k = choose|k: int| 0 <= k < m.len() && #[trigger] m[k];
        lemma_unflatten(k, rows.len() as int, n);
        assert(crosses(scope, rows[k / n], cols[k % n]));
    }
    if exists|i: int, j: int|
        0 <= i < rows.len() && 0 <= j < cols.len() && crosses(
            scope,
            #[trigger] rows[i],
            #[trigger] cols[j],
        ) {
        let (i, j) = choose|i: int, j: int|
            0 <= i < rows.len() && 0 <= j < cols.len() && crosses(
                scope,
                #[trigger] rows[i],
                #[trigger] cols[j],
            );
        lemma_plain_cell(scope, rows, cols, i, j);
        assert(m[flat_index(i, j, n)]);
    }
}

/// Crossing does not depend on which of the two orders is named first.
pub proof fn law_crossing_is_symmetric(scope: MatchScope, a: Order, b: Order)
    ensures
        crosses(scope, a, b) == crosses(scope, b, a),
{
}

/// The matrix that one party computes over the other's book is the
/// transpose of the matrix computed the other way round.
pub proof fn law_matrix_transposes(
    scope: MatchScope,
    a: Seq<Order>,
    b: Seq<Order>,
    i: int,
    j: int,
)
    requires
        0 <= i < a.len(),
        0 <= j < b.len(),
    ensures
        plain_matrix(scope, a, b)[flat_index(i, j, b.len() as int)] == plain_matrix(scope, b, a)[flat_index(
            j,
            i,
            a.len() as int,
        )],
{
    lemma_plain_cell(scope, a, b, i, j);
    lemma_plain_cell(scope, b, a, j, i);
}

/// Whether a match exists does not depend on which party evaluates: a
/// round in which `a` is the encrypted batch and `b` the plaintext book finds
/// a match exactly when the round in the other direction finds one.
pub proof fn law_any_match_is_symmetric(scope: MatchScope, a: Seq<Order>, b: Seq<Order>)
    ensures
        any_cross(scope, a, b) == any_cross(scope, b, a),
{
    lemma_any_cross_is_some_pair(scope, a, b);
    lemma_any_cross_is_some_pair(scope, b, a);
    if any_cross(scope, a, b) {
        let (i, j) = choose|i: int, j: int|
            0 <= i < a.len() && 0 <= j < b.len() && crosses(scope, #[trigger] a[i], #[trigger] b[j]);
        assert(crosses(scope, b[j], a[i]));
    }
    if any_cross(scope, b, a) {
        let (j, i) = choose|j: int, i: int|
            0 <= j < b.len() && 0 <= i < a.len() && crosses(scope, #[trigger] b[j], #[trigger] a[i]);
        assert(crosses(scope, a[i], b[j]));
    }
}

/// Where no price of one book occurs in the other, no cell is set, whatever
/// the sides are.
pub proof fn law_distinct_prices_never_match(scope: MatchScope, a: Seq<Order>, b: Seq<Order>)
    requires
        forall|i: int, j: int|
            0 <= i < a.len() && 0 <= j < b.len() ==> (#[trigger] a[i]).price != (#[trigger] b[j]).price,
    ensures
        forall|k: int|
            0 <= k < plain_matrix(scope, a, b).len() ==> !(#[trigger] plain_matrix(scope, a, b)[k]),
        !any_cross(scope, a, b),
{
    let m = plain_matrix(scope, a, b);
    let n = b.len() as int;
    assert forall|k: int| 0 <= k < m.len() implies !(#[trigger] m[k]) by {
        lemma_unflatten(k, a.len() as int, n);
        assert(a[k / n].price != b[k % n].price);
    }
}

/// Where both books hold orders of one side only, and the same side, no
/// cell is set, whatever the prices are.
pub proof fn law_same_side_never_matches(scope: MatchScope, a: Seq<Order>, b: Seq<Order>, side: bool)
    requires
        forall|i: int| 0 <= i < a.len() ==> (#[trigger] a[i]).a_for_b == side,
        forall|j: int| 0 <= j < b.len() ==> (#[trigger] b[j]).a_for_b == side,
    ensures
        !any_cross(scope, a, b),
{
    let m = plain_matrix(scope, a, b);
    let n = b.len() as int;
    assert forall|k: int| 0 <= k < m.len() implies !(#[trigger] m[k]) by {
        lemma_unflatten(k, a.len() as int, n);
        assert(a[k / n].a_for_b == b[k % n].a_for_b);
    }
}

} // verus!
