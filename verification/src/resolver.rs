//! The match resolver: the party that holds the secret key opens the cells
//! of a match matrix and reduces them to whether anything matched, and
//! where.

use crate::common::{Ciphertext, Field, Orders, ProtocolError, StateViolation};
use crate::evaluator::{all_fit, cells_hold, find_misfit, fitting, lemma_all_fit};
use crate::matching::{any_true, lemma_unflatten};
use crate::provider::flag_inside;
use crate::scan::{first_false, lemma_first_false_is, lemma_first_false_none};
use crate::session::SessionKeys;
use tfhe::{ClientKey, FheBool};
use vstd::prelude::*;

verus! {

/// What a party learns from a round: whether any pair of orders crossed,
/// and which. A pair is (`row`, `col`): the position of an order in the
/// encrypted batch and the position of an order in the plaintext book. The
/// pairs stand in row-major order.
#[derive(Clone, Debug, PartialEq, Eq)]
pub struct MatchReport {
    pub any_match: bool,
    pub pairs: Vec<(usize, usize)>,
}

/// The positions of the cells that are set, in rising order.
pub open spec fn hit_positions(cells: Seq<bool>) -> Seq<int>
    decreases cells.len(),
{
    if cells.len() == 0 {
        Seq::empty()
    } else if cells.last() {
        hit_positions(cells.drop_last()).push(cells.len() - 1)
    } else {
        hit_positions(cells.drop_last())
    }
}

/// The (`row`, `col`) pairs of the cells that are set in a row-major matrix
/// with `cols` columns, in row-major order.
pub open spec fn hit_pairs(cells: Seq<bool>, cols: int) -> Seq<(usize, usize)> {
    hit_positions(cells).map_values(|k: int| ((k / cols) as usize, (k % cols) as usize))
}

/// Whether `opened` is what opening `cells` with `secret` may give: at each
/// position the boolean that the cell holds, where it holds one.
pub open spec fn opens_to(cells: Seq<FheBool>, secret: ClientKey, opened: Seq<bool>) -> bool {
    &&& opened.len() == cells.len()
    &&& forall|k: int|
        0 <= k < cells.len() ==> (flag_inside(#[trigger] cells[k], secret) matches Some(held)
            ==> opened[k] == held)
}

/// `hit_positions` lists exactly the positions that are set, each once and
/// in rising order.
pub proof fn lemma_hit_positions(cells: Seq<bool>)
    ensures
        forall|t: int|
            0 <= t < hit_positions(cells).len() ==> 0 <= #[trigger] hit_positions(cells)[t]
                < cells.len() && cells[hit_positions(cells)[t]],
        forall|s: int, t: int|
            0 <= s < t < hit_positions(cells).len() ==> #[trigger] hit_positions(cells)[s]
                < #[trigger] hit_positions(cells)[t],
        forall|k: int|
            0 <= k < cells.len() && #[trigger] cells[k] ==> hit_positions(cells).contains(k),
        hit_positions(cells).len() <= cells.len(),
    decreases cells.len(),
{
    if cells.len() > 0 {
        let front = cells.drop_last();
        lemma_hit_positions(front);
        let hits = hit_positions(cells);
        let last = cells.len() - 1;
        assert forall|k: int| 0 <= k < cells.len() && #[trigger] cells[k] implies hits.contains(
            k,
        ) by {
            if k < last {
                assert(front[k]);
                let t = choose|t: int|
                    0 <= t < hit_positions(front).len() && hit_positions(front)[t] == k;
                assert(hits[t] == k);
            } else {
                assert(hits[hits.len() - 1] == k);
            }
        }
    }
}

/// Something matched exactly when the list of hits is not empty.
pub proof fn lemma_any_true_has_hits(cells: Seq<bool>)
    ensures
        any_true(cells) <==> hit_positions(cells).len() > 0,
{
    lemma_hit_positions(cells);
    let hits = hit_positions(cells);
    if any_true(cells) {
        let k = choose|k: int| 0 <= k < cells.len() && #[trigger] cells[k];
        assert(hits.contains(k));
    }
    if hits.len() > 0 {
        assert(cells[hits[0]]);
    }
}

/// Reduces the opened cells of a `rows` x `cols` matrix to a report. A
/// vector that does not hold one cell for each pair is refused.
pub fn reduce_cells(cells: &Vec<bool>, rows: usize, cols: usize) -> (r: Result<
    MatchReport,
    ProtocolError,
>)
    ensures
        match r {
            Ok(report) => {
                &&& cells@.len() == rows * cols
                &&& report.any_match == any_true(cells@)
                &&& report.pairs@ == hit_pairs(cells@, cols as int)
            },
            Err(e) => cells@.len() != rows * cols && e == ProtocolError::State(
                StateViolation::ResponseLength,
            ),
        },
{
    if !spans(cells.len(), rows, cols) {
        return Err(ProtocolError::State(StateViolation::ResponseLength));
    }
    let mut pairs: Vec<(usize, usize)> = Vec::new();
    let mut k: usize = 0;
    while k < cells.len()
        invariant
            k <= cells@.len(),
            cells@.len() == rows * cols,
            pairs@ == hit_pairs(cells@.take(k as int), cols as int),
        decreases cells@.len() - k,
    {
        proof {
            lemma_unflatten(k as int, rows as int, cols as int);
            assert(cells@.take(k + 1).drop_last() =~= cells@.take(k as int));
        }
        if cells[k] {
            pairs.push((k / cols, k % cols));
            proof {
                let front = hit_positions(cells@.take(k as int));
                let f = |p: int| ((p / (cols as int)) as usize, (p % (cols as int)) as usize);
                assert(front.push(k as int).map_values(f) =~= front.map_values(f).push(
                    f(k as int),
                ));
            }
        }
        k = k + 1;
    }
    proof {
        assert(cells@.take(k as int) =~= cells@);
        lemma_any_true_has_hits(cells@);
    }
    Ok(MatchReport { any_match: pairs.len() > 0, pairs })
}

/// Whether `len` is `rows * cols`.
pub fn spans(len: usize, rows: usize, cols: usize) -> (r: bool)
    ensures
        r == (len == rows * cols),
{
    match rows.checked_mul(cols) {
        Some(product) => product == len,
        None => false,
    }
}

/// What `resolve` decides before it opens anything: whether the cells are
/// taken, and with which error they are refused. They are refused where
/// they are not one for each pair of orders, and where one of them does not
/// have the shape of the round's keys.
pub open spec fn taken(keys: SessionKeys, cells: Seq<FheBool>, rows: int, cols: int) -> Result<
    (),
    ProtocolError,
> {
    if cells.len() != rows * cols {
        Err(ProtocolError::State(StateViolation::ResponseLength))
    } else {
        match first_false(fitting(cells, keys.evaluation())) {
            Some(k) => Err(ProtocolError::KeyMismatch { field: Field::Cell, index: k as usize }),
            None => Ok(()),
        }
    }
}

/// Cells that hold `expected` open to `expected` and to nothing else.
pub proof fn lemma_opens_to_what_is_held(
    cells: Seq<FheBool>,
    secret: ClientKey,
    opened: Seq<bool>,
    expected: Seq<bool>,
)
    requires
        opens_to(cells, secret, opened),
        cells_hold(cells, secret, expected),
    ensures
        opened == expected,
{
    assert forall|k: int| 0 <= k < opened.len() implies opened[k] == expected[k] by {
        assert(flag_inside(cells[k], secret) == Some(expected[k]));
    }
    assert(opened =~= expected);
}

/// Checks the cells against the round's keys and opens every one of them.
fn open_cells(keys: &SessionKeys, cells: &Vec<FheBool>) -> (r: Result<Vec<bool>, ProtocolError>)
    ensures
        match r {
            Ok(opened) => first_false(fitting(cells@, keys.evaluation())) is None && opens_to(
                cells@,
                keys.secret(),
                opened@,
            ),
            Err(e) => first_false(fitting(cells@, keys.evaluation())) matches Some(k) && e == (
            ProtocolError::KeyMismatch { field: Field::Cell, index: k as usize }),
        },
{
    let ghost passes = fitting(cells@, keys.evaluation());
    let mut opened: Vec<bool> = Vec::new();
    let mut k: usize = 0;
    while k < cells.len()
        invariant
            k <= cells@.len(),
            passes == fitting(cells@, keys.evaluation()),
            forall|i: int| 0 <= i < k ==> #[trigger] passes[i],
            opens_to(cells@.take(k as int), keys.secret(), opened@),
        decreases cells@.len() - k,
    {
        match keys.open_flag(&cells[k]) {
            Some(value) => {
                let ghost before = opened@;
                opened.push(value);
                proof {
                    let taken = cells@.take(k + 1);
                    assert forall|i: int| 0 <= i < taken.len() implies (flag_inside(
                        #[trigger] taken[i],
                        keys.secret(),
                    ) matches Some(held) ==> opened@[i] == held) by {
                        if i < k {
                            assert(taken[i] == cells@.take(k as int)[i]);
                            assert(opened@[i] == before[i]);
                        }
                    }
                }
            },
            None => {
                proof {
                    lemma_first_false_is(passes, k as int);
                }
                return Err(ProtocolError::KeyMismatch { field: Field::Cell, index: k });
            },
        }
        k = k + 1;
    }
    proof {
        lemma_first_false_none(passes);
        assert(cells@.take(k as int) =~= cells@);
    }
    Ok(opened)
}

/// Opens the cells of a `rows` x `cols` match matrix and reports whether
/// anything matched, and which pairs. Every cell is opened. Nothing is
/// reported beside an error.
pub fn resolve(keys: &SessionKeys, cells: &Vec<FheBool>, rows: usize, cols: usize) -> (r: Result<
    MatchReport,
    ProtocolError,
>)
    ensures
        match r {
            Ok(report) => {
                &&& taken(*keys, cells@, rows as int, cols as int) is Ok
                &&& exists|opened: Seq<bool>|
                    {
                        &&& #[trigger] opens_to(cells@, keys.secret(), opened)
                        &&& report.any_match == any_true(opened)
                        &&& report.pairs@ == hit_pairs(opened, cols as int)
                    }
            },
            Err(e) => taken(*keys, cells@, rows as int, cols as int) == Err::<(), ProtocolError>(e),
        },
{
    if !spans(cells.len(), rows, cols) {
        return Err(ProtocolError::State(StateViolation::ResponseLength));
    }
    match open_cells(keys, cells) {
        Ok(opened) => match reduce_cells(&opened, rows, cols) {
            Ok(report) => {
                proof {
                    assert(opens_to(cells@, keys.secret(), opened@));
                }
                Ok(report)
            },
            Err(e) => Err(e),
        },
        Err(e) => Err(e),
    }
}

/// Decides whether anything matched in a `rows` x `cols` match matrix, and
/// stops opening at the first cell that is set. The cells are refused on
/// the same grounds as in `resolve`, before any of them is opened.
pub fn any_match(keys: &SessionKeys, cells: &Vec<FheBool>, rows: usize, cols: usize) -> (r: Result<
    bool,
    ProtocolError,
>)
    ensures
        match r {
            Ok(found) => {
                &&& taken(*keys, cells@, rows as int, cols as int) is Ok
                &&& exists|opened: Seq<bool>|
                    #[trigger] opens_to(cells@, keys.secret(), opened) && found == any_true(
                        opened,
                    )
            },
            Err(e) => taken(*keys, cells@, rows as int, cols as int) == Err::<(), ProtocolError>(e),
        },
{
    if !spans(cells.len(), rows, cols) {
        return Err(ProtocolError::State(StateViolation::ResponseLength));
    }
    if let Some(index) = find_misfit(cells, keys.evaluation_key()) {
        return Err(ProtocolError::KeyMismatch { field: Field::Cell, index });
    }
    proof {
        lemma_all_fit(cells@, keys.evaluation());
    }
    let ghost secret = keys.secret();
    let ghost rest = Seq::new(
        cells@.len(),
        |i: int|
            match flag_inside(cells@[i], secret) {
                Some(held) => held,
                None => false,
            },
    );
    let mut k: usize = 0;
    while k < cells.len()
        invariant
            k <= cells@.len(),
            secret == keys.secret(),
            taken(*keys, cells@, rows as int, cols as int) is Ok,
            all_fit(cells@, keys.evaluation()),
            rest.len() == cells@.len(),
            opens_to(cells@, secret, rest),
            forall|i: int| 0 <= i < k ==> !#[trigger] rest[i],
        decreases cells@.len() - k,
    {
        assert(cells@[k as int].fits(keys.evaluation()));
        if keys.open_fitting(&cells[k]) {
            proof {
                let opened = rest.update(k as int, true);
                assert(opens_to(cells@, secret, opened));
                assert(opened[k as int]);
            }
            return Ok(true);
        }
        proof {
            let ghost previous = rest;
            rest = rest.update(k as int, false);
            assert forall|i: int| 0 <= i < k + 1 implies !#[trigger] rest[i] by {
                if i < k {
                    assert(rest[i] == previous[i]);
                }
            }
        }
        k = k + 1;
    }
    proof {
        assert(!any_true(rest));
    }
    Ok(false)
}

/// The identifiers of this party's own orders that matched, one for each
/// pair of the report and in its order. `batch` is the batch that this
/// party encrypted: its orders are the rows. The counterparty's orders are
/// known by position only. `None` where a pair names a row that the batch
/// does not have.
pub fn own_matched_ids(report: &MatchReport, batch: &Orders) -> (r: Option<Vec<u32>>)
    ensures
        match r {
            Some(ids) => {
                &&& ids@.len() == report.pairs@.len()
                &&& forall|t: int|
                    0 <= t < ids@.len() ==> (#[trigger] report.pairs@[t]).0 < batch.order@.len()
                        && ids@[t] == batch.order@[report.pairs@[t].0 as int].id
            },
            None => exists|t: int|
                0 <= t < report.pairs@.len() && (#[trigger] report.pairs@[t]).0
                    >= batch.order@.len(),
        },
{
    let mut ids: Vec<u32> = Vec::new();
    let mut t: usize = 0;
    while t < report.pairs.len()
        invariant
            t <= report.pairs@.len(),
            ids@.len() == t,
            forall|s: int|
                0 <= s < t ==> (#[trigger] report.pairs@[s]).0 < batch.order@.len() && ids@[s]
                    == batch.order@[report.pairs@[s].0 as int].id,
        decreases report.pairs@.len() - t,
    {
        let row = report.pairs[t].0;
        if row >= batch.order.len() {
            return None;
        }
        ids.push(batch.order[row].id);
        t = t + 1;
    }
    Some(ids)
}

} // verus!
