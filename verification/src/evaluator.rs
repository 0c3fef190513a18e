//! The match evaluator: compares a counterparty's encrypted batch with this
//! party's plaintext book, cell by cell, without opening anything.

use crate::common::{Ciphertext, Field, Order, Orders, ProtocolError, RoundTerms, StateViolation};
use crate::matching::{crosses, flat_index, lemma_plain_cell, plain_matrix, MatchScope};
use crate::provider::{
    flag_and, flag_equals, flag_fits, flag_inside, serves, usable, word_equals, word_fits,
    word_inside, CipherU32,
};
use crate::scan::{first_false, lemma_first_false, lemma_first_false_is, lemma_first_false_none};
use crate::session::EvaluationKey;
use tfhe::{ClientKey, FheBool, ServerKey};
use vstd::prelude::*;

verus! {

/// A counterparty's batch as ciphertexts, one entry of each vector per
/// order. The asset vectors are empty where the pair is public.
pub struct SealedBatch {
    pub prices: Vec<CipherU32>,
    pub sides: Vec<FheBool>,
    pub asset_a: Vec<CipherU32>,
    pub asset_b: Vec<CipherU32>,
}

/// A sealed batch as four sequences of ciphertexts.
pub struct BatchView {
    pub prices: Seq<CipherU32>,
    pub sides: Seq<FheBool>,
    pub asset_a: Seq<CipherU32>,
    pub asset_b: Seq<CipherU32>,
}

impl View for SealedBatch {
    type V = BatchView;

    open spec fn view(&self) -> BatchView {
        BatchView {
            prices: self.prices@,
            sides: self.sides@,
            asset_a: self.asset_a@,
            asset_b: self.asset_b@,
        }
    }
}

impl BatchView {
    /// The number of orders that the batch stands for.
    pub open spec fn rows(self) -> int {
        self.prices.len() as int
    }

    /// Whether the vectors have the lengths that `scope` asks for: one side
    /// for each price, and asset identifiers for all orders or for none.
    pub open spec fn well_shaped(self, scope: MatchScope) -> bool {
        &&& self.sides.len() == self.prices.len()
        &&& self.asset_a.len() == (if scope is WithAssetPair { self.prices.len() } else { 0 })
        &&& self.asset_b.len() == self.asset_a.len()
    }

    /// Whether every ciphertext has the shape that `evaluation` computes on.
    pub open spec fn fits(self, evaluation: ServerKey) -> bool {
        &&& all_fit(self.prices, evaluation)
        &&& all_fit(self.sides, evaluation)
        &&& all_fit(self.asset_a, evaluation)
        &&& all_fit(self.asset_b, evaluation)
    }

    /// The first ciphertext that does not have the shape that `evaluation`
    /// computes on, if there is one. The vectors are gone through one after
    /// the other: prices, sides, first and second asset identifiers.
    pub open spec fn misfit(self, evaluation: ServerKey) -> Option<(Field, int)> {
        match first_false(fitting(self.prices, evaluation)) {
            Some(k) => Some((Field::Price, k)),
            None => match first_false(fitting(self.sides, evaluation)) {
                Some(k) => Some((Field::Side, k)),
                None => match first_false(fitting(self.asset_a, evaluation)) {
                    Some(k) => Some((Field::AssetA, k)),
                    None => match first_false(fitting(self.asset_b, evaluation)) {
                        Some(k) => Some((Field::AssetB, k)),
                        None => None,
                    },
                },
            },
        }
    }

    /// Whether the batch holds the fields of `orders` for the owner of
    /// `secret`, as far as `scope` compares them.
    pub open spec fn holds(self, secret: ClientKey, scope: MatchScope, orders: Seq<Order>) -> bool {
        &&& self.well_shaped(scope)
        &&& orders.len() == self.prices.len()
        &&& forall|i: int|
            0 <= i < orders.len() ==> {
                &&& word_inside(#[trigger] self.prices[i], secret) == Some(orders[i].price)
                &&& flag_inside(self.sides[i], secret) == Some(orders[i].a_for_b)
            }
        &&& scope is WithAssetPair ==> forall|i: int|
            0 <= i < orders.len() ==> {
                &&& word_inside(#[trigger] self.asset_a[i], secret) == Some(orders[i].asset_a)
                &&& word_inside(self.asset_b[i], secret) == Some(orders[i].asset_b)
            }
    }
}

/// For each ciphertext, whether it has the shape that `evaluation` computes on.
pub open spec fn fitting<T: Ciphertext>(items: Seq<T>, evaluation: ServerKey) -> Seq<bool> {
    items.map_values(|c: T| c.fits(evaluation))
}

/// Whether every ciphertext of `items` has the shape that `evaluation`
/// computes on.
pub open spec fn all_fit<T: Ciphertext>(items: Seq<T>, evaluation: ServerKey) -> bool {
    forall|i: int| 0 <= i < items.len() ==> (#[trigger] items[i]).fits(evaluation)
}

/// Whether two batches of `rows` and `cols` orders stay within the agreed
/// batch size and span a matrix that can be indexed.
pub open spec fn within_limits(rows: int, cols: int, max_batch: int) -> bool {
    rows <= max_batch && cols <= max_batch && rows * cols <= usize::MAX
}

/// What `evaluate` decides before it computes: whether the batch is
/// admitted, and with which error it is refused.
pub open spec fn admitted(
    evaluation: ServerKey,
    batch: BatchView,
    cols: int,
    terms: RoundTerms,
) -> Result<(), ProtocolError> {
    if !batch.well_shaped(terms.scope) {
        Err(ProtocolError::State(StateViolation::RequestShape))
    } else if !within_limits(batch.rows(), cols, terms.max_batch as int) {
        Err(ProtocolError::State(StateViolation::BatchLimit))
    } else {
        match batch.misfit(evaluation) {
            Some((field, k)) => Err(ProtocolError::KeyMismatch { field, index: k as usize }),
            None => Ok(()),
        }
    }
}

/// A vector without a misfit is one in which every ciphertext fits.
pub proof fn lemma_all_fit<T: Ciphertext>(items: Seq<T>, evaluation: ServerKey)
    ensures
        first_false(fitting(items, evaluation)) is None <==> all_fit(items, evaluation),
{
    let passes = fitting(items, evaluation);
    lemma_first_false(passes);
    if all_fit(items, evaluation) {
        assert forall|i: int| 0 <= i < passes.len() implies #[trigger] passes[i] by {
            assert(items[i].fits(evaluation));
        }
    }
    if first_false(passes) is None {
        assert forall|i: int| 0 <= i < items.len() implies (#[trigger] items[i]).fits(
            evaluation,
        ) by {
            assert(passes[i]);
        }
    }
}

/// A batch without a misfit is one in which every ciphertext fits.
pub proof fn lemma_no_misfit_fits(batch: BatchView, evaluation: ServerKey)
    ensures
        batch.misfit(evaluation) is None <==> batch.fits(evaluation),
{
    lemma_all_fit(batch.prices, evaluation);
    lemma_all_fit(batch.sides, evaluation);
    lemma_all_fit(batch.asset_a, evaluation);
    lemma_all_fit(batch.asset_b, evaluation);
}

/// Whether encrypted cells hold the plaintext cells `expected` for the owner
/// of `secret`, position by position.
pub open spec fn cells_hold(cells: Seq<FheBool>, secret: ClientKey, expected: Seq<bool>) -> bool {
    &&& cells.len() == expected.len()
    &&& forall|k: int|
        0 <= k < cells.len() ==> flag_inside(#[trigger] cells[k], secret) == Some(expected[k])
}

/// Whether `cells` is a match matrix of `batch` and `book` as `evaluate`
/// computes it under `evaluation`: one cell for each pair, each of the
/// key's shape, and for the owner of the secret key that `evaluation`
/// serves, whatever orders the batch holds, the cells hold the plaintext
/// matrix of those orders and the book.
pub open spec fn evaluated(
    cells: Seq<FheBool>,
    evaluation: ServerKey,
    batch: BatchView,
    scope: MatchScope,
    book: Seq<Order>,
) -> bool {
    &&& cells.len() == batch.rows() * book.len()
    &&& all_fit(cells, evaluation)
    &&& forall|secret: ClientKey, orders: Seq<Order>|
        serves(evaluation, secret) && #[trigger] batch.holds(secret, scope, orders) ==> cells_hold(
            cells,
            secret,
            plain_matrix(scope, orders, book),
        )
}

/// What a matrix that holds the plaintext matrix of two books says cell by
/// cell: for the owner of the secret key, cell (`i`, `j`) holds whether
/// order `i` of the one book and order `j` of the other name the same price
/// from opposite sides and, where the pair is compared, the same pair.
pub proof fn law_cell_holds_the_crossing(
    cells: Seq<FheBool>,
    secret: ClientKey,
    scope: MatchScope,
    rows: Seq<Order>,
    cols: Seq<Order>,
    i: int,
    j: int,
)
    requires
        cells_hold(cells, secret, plain_matrix(scope, rows, cols)),
        0 <= i < rows.len(),
        0 <= j < cols.len(),
    ensures
        0 <= flat_index(i, j, cols.len() as int) < cells.len(),
        flag_inside(cells[flat_index(i, j, cols.len() as int)], secret) == Some(
            {
                &&& rows[i].price == cols[j].price
                &&& rows[i].a_for_b != cols[j].a_for_b
                &&& scope is WithAssetPair ==> rows[i].asset_a == cols[j].asset_a
                    && rows[i].asset_b == cols[j].asset_b
            },
        ),
{
    lemma_plain_cell(scope, rows, cols, i, j);
}

/// Finds the first ciphertext that does not have the shape of `evaluation`.
pub fn find_misfit<T: Ciphertext>(items: &Vec<T>, evaluation: &EvaluationKey) -> (r: Option<usize>)
    ensures
        match r {
            None => first_false(fitting(items@, evaluation.key())) is None,
            Some(index) => first_false(fitting(items@, evaluation.key())) == Some(index as int),
        },
{
    let key = evaluation.provider_key();
    let ghost passes = fitting(items@, *key);
    let mut i: usize = 0;
    while i < items.len()
        invariant
            i <= items@.len(),
            usable(*key),
            *key == evaluation.key(),
            passes == fitting(items@, *key),
            forall|k: int| 0 <= k < i ==> #[trigger] passes[k],
        decreases items@.len() - i,
    {
        if !items[i].conforms(key) {
            proof {
                lemma_first_false_is(passes, i as int);
            }
            return Some(i);
        }
        i = i + 1;
    }
    proof {
        lemma_first_false_none(passes);
    }
    None
}

/// The two terms of a row that do not depend on the column: whether the
/// row's side differs from `true`, and whether it differs from `false`.
fn side_terms(evaluation: &ServerKey, side: &FheBool) -> (terms: (FheBool, FheBool))
    requires
        usable(*evaluation),
        flag_fits(*side, *evaluation),
    ensures
        flag_fits(terms.0, *evaluation),
        flag_fits(terms.1, *evaluation),
        forall|secret: ClientKey|
            serves(*evaluation, secret) && flag_inside(*side, secret) is Some ==> {
                &&& #[trigger] flag_inside(terms.0, secret) == Some(
                    flag_inside(*side, secret)->0 != true,
                )
                &&& #[trigger] flag_inside(terms.1, secret) == Some(
                    flag_inside(*side, secret)->0 != false,
                )
            },
{
    let differs_from_true = flag_equals(evaluation, side, false);
    let differs_from_false = flag_equals(evaluation, side, true);
    (differs_from_true, differs_from_false)
}

/// One cell: the row's price against the column's, joined with the row's
/// side term for the column's side, and where the pair is compared, with
/// both asset identifiers against the column's.
fn compare_pair(
    evaluation: &ServerKey,
    price: &CipherU32,
    side_differs: &FheBool,
    pair: Option<(&CipherU32, &CipherU32)>,
    against: &Order,
) -> (cell: FheBool)
    requires
        usable(*evaluation),
        word_fits(*price, *evaluation),
        flag_fits(*side_differs, *evaluation),
        pair matches Some(p) ==> word_fits(*p.0, *evaluation) && word_fits(*p.1, *evaluation),
    ensures
        flag_fits(cell, *evaluation),
        forall|secret: ClientKey|
            {
                &&& serves(*evaluation, secret)
                &&& word_inside(*price, secret) is Some
                &&& flag_inside(*side_differs, secret) is Some
                &&& pair matches Some(p) ==> word_inside(*p.0, secret) is Some && word_inside(
                    *p.1,
                    secret,
                ) is Some
            } ==> #[trigger] flag_inside(cell, secret) == Some(
                {
                    &&& word_inside(*price, secret)->0 == against.price
                    &&& flag_inside(*side_differs, secret)->0
                    &&& pair matches Some(p) ==> word_inside(*p.0, secret)->0 == against.asset_a
                        && word_inside(*p.1, secret)->0 == against.asset_b
                },
            ),
{
    let price_match = word_equals(evaluation, price, against.price);
    let on_price_and_side = flag_and(evaluation, &price_match, side_differs);
    match pair {
        None => {
            proof {
                assert forall|secret: ClientKey|
                    {
                        &&& serves(*evaluation, secret)
                        &&& word_inside(*price, secret) is Some
                        &&& flag_inside(*side_differs, secret) is Some
                    } implies #[trigger] flag_inside(on_price_and_side, secret) == Some(
                    word_inside(*price, secret)->0 == against.price && flag_inside(
                        *side_differs,
                        secret,
                    )->0,
                ) by {
                    assert(flag_inside(price_match, secret) is Some);
                }
            }
            on_price_and_side
        },
        Some((asset_a, asset_b)) => {
            let a_match = word_equals(evaluation, asset_a, against.asset_a);
            let b_match = word_equals(evaluation, asset_b, against.asset_b);
            let with_a = flag_and(evaluation, &on_price_and_side, &a_match);
            let with_both = flag_and(evaluation, &with_a, &b_match);
            proof {
                assert forall|secret: ClientKey|
                    {
                        &&& serves(*evaluation, secret)
                        &&& word_inside(*price, secret) is Some
                        &&& flag_inside(*side_differs, secret) is Some
                        &&& word_inside(*asset_a, secret) is Some
                        &&& word_inside(*asset_b, secret) is Some
                    } implies #[trigger] flag_inside(with_both, secret) == Some(
                    {
                        &&& word_inside(*price, secret)->0 == against.price
                        &&& flag_inside(*side_differs, secret)->0
                        &&& word_inside(*asset_a, secret)->0 == against.asset_a
                        &&& word_inside(*asset_b, secret)->0 == against.asset_b
                    },
                ) by {
                    assert(flag_inside(price_match, secret) is Some);
                    assert(flag_inside(on_price_and_side, secret) is Some);
                    assert(flag_inside(a_match, secret) is Some);
                    assert(flag_inside(b_match, secret) is Some);
                    assert(flag_inside(with_a, secret) is Some);
                }
            }
            with_both
        },
    }
}

/// Whether the first cells of a matrix, as many as `cells` holds, hold the
/// plaintext cells `expected` for the owner of `secret`.
spec fn prefix_holds(cells: Seq<FheBool>, secret: ClientKey, expected: Seq<bool>) -> bool {
    &&& cells.len() <= expected.len()
    &&& forall|k: int|
        0 <= k < cells.len() ==> flag_inside(#[trigger] cells[k], secret) == Some(expected[k])
}

/// Fills the matrix row by row. The two side terms of a row are computed
/// once, before its columns are gone through.
fn compare_all(
    evaluation: &ServerKey,
    sealed: &SealedBatch,
    book: &Orders,
    scope: MatchScope,
) -> (cells: Vec<FheBool>)
    requires
        usable(*evaluation),
        sealed@.well_shaped(scope),
        sealed@.fits(*evaluation),
    ensures
        evaluated(cells@, *evaluation, sealed@, scope, book.order@),
{
    let rows = sealed.prices.len();
    let cols = book.order.len();
    let mut cells: Vec<FheBool> = Vec::new();
    let mut i: usize = 0;
    while i < rows
        invariant
            i <= rows,
            rows == sealed.prices@.len(),
            cols == book.order@.len(),
            usable(*evaluation),
            sealed@.well_shaped(scope),
            sealed@.fits(*evaluation),
            cells@.len() == i * cols,
            all_fit(cells@, *evaluation),
            forall|secret: ClientKey, orders: Seq<Order>|
                serves(*evaluation, secret) && #[trigger] sealed@.holds(secret, scope, orders)
                    ==> prefix_holds(cells@, secret, plain_matrix(scope, orders, book.order@)),
        decreases rows - i,
    {
        if cols > 0 {
            let side = &sealed.sides[i];
            let (differs_from_true, differs_from_false) = side_terms(evaluation, side);
            let mut j: usize = 0;
            while j < cols
                invariant
                    i < rows,
                    j <= cols,
                    rows == sealed.prices@.len(),
                    cols == book.order@.len(),
                    usable(*evaluation),
                    sealed@.well_shaped(scope),
                    sealed@.fits(*evaluation),
                    *side == sealed.sides@[i as int],
                    flag_fits(differs_from_true, *evaluation),
                    flag_fits(differs_from_false, *evaluation),
                    forall|secret: ClientKey|
                        serves(*evaluation, secret) && flag_inside(*side, secret) is Some ==> {
                            &&& #[trigger] flag_inside(differs_from_true, secret) == Some(
                                flag_inside(*side, secret)->0 != true,
                            )
                            &&& #[trigger] flag_inside(differs_from_false, secret) == Some(
                                flag_inside(*side, secret)->0 != false,
                            )
                        },
                    cells@.len() == i * cols + j,
                    all_fit(cells@, *evaluation),
                    forall|secret: ClientKey, orders: Seq<Order>|
                        serves(*evaluation, secret) && #[trigger] sealed@.holds(secret, scope, orders)
                            ==> prefix_holds(
                            cells@,
                            secret,
                            plain_matrix(scope, orders, book.order@),
                        ),
                decreases cols - j,
            {
                let against = &book.order[j];
                let price = &sealed.prices[i];
                let side_differs = if against.a_for_b {
                    &differs_from_true
                } else {
                    &differs_from_false
                };
                let pair = match scope {
                    MatchScope::PriceAndSide => None,
                    MatchScope::WithAssetPair => Some((&sealed.asset_a[i], &sealed.asset_b[i])),
                };
                let cell = compare_pair(evaluation, price, side_differs, pair, against);
                let ghost before = cells@;
                cells.push(cell);
                proof {
                    assert forall|secret: ClientKey, orders: Seq<Order>|
                        serves(*evaluation, secret) && #[trigger] sealed@.holds(
                            secret,
                            scope,
                            orders,
                        ) implies prefix_holds(
                        cells@,
                        secret,
                        plain_matrix(scope, orders, book.order@),
                    ) by {
                        let expected = plain_matrix(scope, orders, book.order@);
                        assert(prefix_holds(before, secret, expected));
                        lemma_plain_cell(scope, orders, book.order@, i as int, j as int);
                        assert(flat_index(i as int, j as int, cols as int) == before.len());
                        assert(word_inside(sealed.prices@[i as int], secret) == Some(
                            orders[i as int].price,
                        ));
                        assert(flag_inside(*side, secret) == Some(orders[i as int].a_for_b));
                        assert(flag_inside(differs_from_true, secret) is Some);
                        assert(flag_inside(differs_from_false, secret) is Some);
                        if scope is WithAssetPair {
                            assert(word_inside(sealed.asset_a@[i as int], secret) == Some(
                                orders[i as int].asset_a,
                            ));
                        }
                        assert(flag_inside(cell, secret) == Some(
                            crosses(scope, orders[i as int], *against),
                        ));
                        assert forall|k: int| 0 <= k < cells@.len() implies flag_inside(
                            #[trigger] cells@[k],
                            secret,
                        ) == Some(expected[k]) by {
                            if k < before.len() {
                                assert(cells@[k] == before[k]);
                            }
                        }
                    }
                    assert forall|k: int| 0 <= k < cells@.len() implies (#[trigger] cells@[k]).fits(
                        *evaluation,
                    ) by {
                        if k < before.len() {
                            assert(cells@[k] == before[k]);
                        }
                    }
                }
                j = j + 1;
            }
        }
        proof {
            assert(cells@.len() == (i + 1) * cols) by (nonlinear_arith)
                requires
                    cells@.len() == (if cols > 0 { i * cols + cols } else { i * cols }),
                    cols >= 0,
            ;
        }
        i = i + 1;
    }
    proof {
        assert forall|secret: ClientKey, orders: Seq<Order>|
            serves(*evaluation, secret) && #[trigger] sealed@.holds(
                secret,
                scope,
                orders,
            ) implies cells_hold(cells@, secret, plain_matrix(scope, orders, book.order@)) by {
            assert(prefix_holds(cells@, secret, plain_matrix(scope, orders, book.order@)));
        }
    }
    cells
}

/// Computes the match matrix of a counterparty's encrypted batch and this
/// party's plaintext book, row-major: cell `i * book.len() + j` is the
/// encrypted answer to whether the batch's order `i` crosses the book's
/// order `j`. Nothing is opened on the way.
///
/// The batch is refused as a whole where its vectors do not have the shape
/// that the agreed scope asks for, where a batch is over the agreed size,
/// and where a ciphertext does not have the shape of `evaluation`.
pub fn evaluate(
    evaluation: &EvaluationKey,
    sealed: &SealedBatch,
    book: &Orders,
    terms: &RoundTerms,
) -> (r: Result<Vec<FheBool>, ProtocolError>)
    ensures
        match r {
            Ok(cells) => {
                &&& admitted(evaluation.key(), sealed@, book.order@.len() as int, *terms) is Ok
                &&& evaluated(cells@, evaluation.key(), sealed@, terms.scope, book.order@)
            },
            Err(e) => admitted(evaluation.key(), sealed@, book.order@.len() as int, *terms) == Err::<
                (),
                ProtocolError,
            >(e),
        },
{
    let rows = sealed.prices.len();
    let cols = book.order.len();
    let with_pair = match terms.scope {
        MatchScope::PriceAndSide => false,
        MatchScope::WithAssetPair => true,
    };
    let asset_len = if with_pair { rows } else { 0 };
    if sealed.sides.len() != rows || sealed.asset_a.len() != asset_len || sealed.asset_b.len()
        != asset_len {
        return Err(ProtocolError::State(StateViolation::RequestShape));
    }
    if rows > terms.max_batch || cols > terms.max_batch || rows.checked_mul(cols).is_none() {
        return Err(ProtocolError::State(StateViolation::BatchLimit));
    }
    if let Some(index) = find_misfit(&sealed.prices, evaluation) {
        return Err(ProtocolError::KeyMismatch { field: Field::Price, index });
    }
    if let Some(index) = find_misfit(&sealed.sides, evaluation) {
        return Err(ProtocolError::KeyMismatch { field: Field::Side, index });
    }
    if let Some(index) = find_misfit(&sealed.asset_a, evaluation) {
        return Err(ProtocolError::KeyMismatch { field: Field::AssetA, index });
    }
    if let Some(index) = find_misfit(&sealed.asset_b, evaluation) {
        return Err(ProtocolError::KeyMismatch { field: Field::AssetB, index });
    }
    proof {
        lemma_no_misfit_fits(sealed@, evaluation.key());
    }
    Ok(compare_all(evaluation.provider_key(), sealed, book, terms.scope))
}

} // verus!
