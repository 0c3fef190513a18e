//! The choreography of a round. The originating party opens a `Round`,
//! sends a request, and resolves the response; the counterparty answers the
//! request with `answer_request`. A session that matches in both directions
//! runs two rounds, each with keys of its own.

use crate::common::{Ciphertext, Field, Order, Orders, ProtocolError, RoundTerms, StateViolation};
use crate::encoder::{encode_orders, encodes};
use crate::evaluator::{
    admitted, cells_hold, evaluate, evaluated, lemma_all_fit, lemma_no_misfit_fits, within_limits,
    BatchView, SealedBatch,
};
use crate::matching::{any_cross, any_true, law_any_match_is_symmetric, plain_matrix, MatchScope};
use crate::provider::{framed, key_on_wire, key_sound, serves, CipherU32};
use crate::resolver::{
    any_match, hit_pairs, lemma_opens_to_what_is_held, opens_to, resolve, spans, taken,
    MatchReport,
};
use crate::scan::lemma_first_false;
use crate::session::{key_encoded, read_written_key, EvaluationKey, Parameters, SessionKeys};
use crate::transport::{
    all_decoded, all_encoded, bytes_of, law_written_reads_back, read_all, request_encoded,
    writable, write_all, RequestView, RoundRequest, RoundResponse,
};
use tfhe::{ClientKey, FheBool, ServerKey};
use vstd::prelude::*;

verus! {

/// Decodes the ciphertexts of a request. Every payload is held to the size
/// bound before the provider sees it. The evaluation key of a request is
/// not read here: the caller reads it where a stop of the provider's
/// reader can be caught, and hands it over as an `EvaluationKey`.
pub fn read_request(request: &RoundRequest) -> (r: Result<SealedBatch, ProtocolError>)
    ensures
        match r {
            Ok(sealed) => request.batch() == Ok::<BatchView, ProtocolError>(sealed@),
            Err(e) => request.batch() == Err::<BatchView, ProtocolError>(e),
        },
{
    let prices = match read_all::<CipherU32>(&request.price_ciphertexts, Field::Price) {
        Ok(items) => items,
        Err(e) => {
            return Err(e);
        },
    };
    let sides = match read_all::<FheBool>(&request.side_ciphertexts, Field::Side) {
        Ok(items) => items,
        Err(e) => {
            return Err(e);
        },
    };
    let asset_a = match read_all::<CipherU32>(&request.asset_a_ciphertexts, Field::AssetA) {
        Ok(items) => items,
        Err(e) => {
            return Err(e);
        },
    };
    let asset_b = match read_all::<CipherU32>(&request.asset_b_ciphertexts, Field::AssetB) {
        Ok(items) => items,
        Err(e) => {
            return Err(e);
        },
    };
    Ok(SealedBatch { prices, sides, asset_a, asset_b })
}

/// Whether the counterparty answers a request over a book of `cols`
/// orders, and with which error it refuses it. The lengths of the vectors
/// decide first, then what the payloads decode to, then whether the
/// ciphertexts have the shape of the key that came with them.
pub open spec fn answerable(
    evaluation: ServerKey,
    request: RoundRequest,
    cols: int,
    terms: RoundTerms,
) -> Result<(), ProtocolError> {
    match request.sized(cols, terms) {
        Err(e) => Err(e),
        Ok(_) => match request.batch() {
            Err(e) => Err(e),
            Ok(batch) => admitted(evaluation, batch, cols, terms),
        },
    }
}

/// Whether a response, or the error in its place, is what comparing an
/// answerable request with `book` and encoding the outcome gives: there is
/// a match matrix of the request's batch and the book, and `outcome` is
/// what `write_all` returns for its cells.
pub open spec fn answers(
    outcome: Result<Seq<Seq<u8>>, ProtocolError>,
    evaluation: ServerKey,
    request: RoundRequest,
    scope: MatchScope,
    book: Seq<Order>,
) -> bool {
    exists|cells: Seq<FheBool>|
        {
            &&& #[trigger] evaluated(cells, evaluation, request.batch()->Ok_0, scope, book)
            &&& outcome == all_encoded(cells, Field::Cell)
        }
}

/// Tells from the lengths of a request's vectors whether it has the agreed
/// shape and both batches the agreed size.
pub fn size_request(request: &RoundRequest, cols: usize, terms: &RoundTerms) -> (r: Result<
    (),
    ProtocolError,
>)
    ensures
        r == request.sized(cols as int, *terms),
{
    let rows = request.price_ciphertexts.len();
    let asset_len = match terms.scope {
        MatchScope::PriceAndSide => 0,
        MatchScope::WithAssetPair => rows,
    };
    if request.side_ciphertexts.len() != rows || request.asset_a_ciphertexts.len() != asset_len
        || request.asset_b_ciphertexts.len() != asset_len {
        return Err(ProtocolError::State(StateViolation::RequestShape));
    }
    if rows > terms.max_batch || cols > terms.max_batch || rows.checked_mul(cols).is_none() {
        return Err(ProtocolError::State(StateViolation::BatchLimit));
    }
    Ok(())
}

/// The counterparty's part of a round: decodes the ciphertexts of the
/// request, compares them with the plaintext `book` under the evaluation
/// key that came with them, and encodes the match matrix, row-major, one
/// payload per cell. The counterparty opens nothing and learns nothing of
/// the batch.
///
/// A request is refused as a whole, before any comparison, where it does
/// not have the agreed shape or size, where a payload is over the size
/// bound or malformed, and where a ciphertext does not have the shape of
/// the key. After that the round fails only where the provider does not
/// write a cell, with the position of the first that it does not write.
pub fn answer_request(
    evaluation: &EvaluationKey,
    request: &RoundRequest,
    book: &Orders,
    terms: &RoundTerms,
) -> (r: Result<RoundResponse, ProtocolError>)
    ensures
        match answerable(evaluation.key(), *request, book.order@.len() as int, *terms) {
            Err(refusal) => r matches Err(e) && e == refusal,
            Ok(_) => answers(
                match r {
                    Ok(response) => Ok(bytes_of(response.match_ciphertexts@)),
                    Err(e) => Err(e),
                },
                evaluation.key(),
                *request,
                terms.scope,
                book.order@,
            ),
        },
        r matches Ok(response) ==> {
            &&& response.match_ciphertexts@.len() == request.rows() * book.order@.len()
            &&& response.fits(evaluation.key())
            &&& forall|secret: ClientKey, orders: Seq<Order>|
                serves(evaluation.key(), secret) && #[trigger] request.holds(
                    secret,
                    terms.scope,
                    orders,
                ) ==> response.holds(secret, plain_matrix(terms.scope, orders, book.order@))
        },
{
    match size_request(request, book.order.len(), terms) {
        Ok(_) => {},
        Err(e) => {
            return Err(e);
        },
    }
    let sealed = match read_request(request) {
        Ok(sealed) => sealed,
        Err(e) => {
            return Err(e);
        },
    };
    let cells = match evaluate(evaluation, &sealed, book, terms) {
        Ok(cells) => cells,
        Err(e) => {
            return Err(e);
        },
    };
    proof {
        assert(evaluated(cells@, evaluation.key(), request.batch()->Ok_0, terms.scope, book.order@));
    }
    let match_ciphertexts = match write_all(&cells, Field::Cell) {
        Ok(payloads) => payloads,
        Err(e) => {
            return Err(e);
        },
    };
    proof {
        law_written_reads_back(match_ciphertexts@, cells@, Field::Cell);
    }
    Ok(RoundResponse { match_ciphertexts })
}

/// Where a round stands, on the side of the party that opened it.
#[derive(Clone, Copy, Debug, PartialEq, Eq)]
pub enum RoundPhase {
    /// The keys exist and nothing was sent.
    KeyGenerated,
    /// The request, and with it the evaluation key, was handed out.
    KeyTransmitted,
    /// The response was opened.
    EvaluationPerformed,
    /// The round is over, or was abandoned. Its keys do nothing any more.
    Retired,
}

/// Whether a step that belongs to the phase `wanted` may be taken in
/// `phase`. After retirement every step is a reuse of retired keys; before
/// it, a step in another phase is out of order.
pub open spec fn gate(phase: RoundPhase, wanted: RoundPhase) -> Result<(), ProtocolError> {
    if phase == wanted {
        Ok(())
    } else if phase is Retired {
        Err(ProtocolError::State(StateViolation::KeyRetired))
    } else {
        Err(ProtocolError::State(StateViolation::OutOfOrder))
    }
}

/// Whether the originating party takes a response over a book of `cols`
/// orders to a batch of `rows`, and with which error it refuses it. The
/// number of payloads decides first, then what they decode to, then whether
/// the cells have the shape of the round's keys.
pub open spec fn acceptable(keys: SessionKeys, response: RoundResponse, rows: int, cols: int) -> Result<
    (),
    ProtocolError,
> {
    if response.match_ciphertexts@.len() != rows * cols {
        Err(ProtocolError::State(StateViolation::ResponseLength))
    } else {
        match all_decoded::<FheBool>(response.match_ciphertexts@, Field::Cell) {
            Err(e) => Err(e),
            Ok(cells) => taken(keys, cells, rows, cols),
        }
    }
}

/// One round on the side of the party that encrypts its batch and opens
/// the answer. The round owns its keys, generated when it is opened, and
/// goes through its phases once.
pub struct Round {
    keys: SessionKeys,
    terms: RoundTerms,
    phase: RoundPhase,
    rows: usize,
}

impl Round {
    /// The round's keys.
    pub closed spec fn keys(self) -> SessionKeys {
        self.keys
    }

    /// What the parties agreed on for this round.
    pub closed spec fn terms(self) -> RoundTerms {
        self.terms
    }

    /// Where the round stands.
    pub closed spec fn phase(self) -> RoundPhase {
        self.phase
    }

    /// The size of the batch that was sent; 0 before a request was built.
    pub closed spec fn rows(self) -> int {
        self.rows as int
    }

    /// Opens a round: generates its key pair under the agreed parameters.
    pub fn open(parameters: &Parameters, terms: RoundTerms) -> (round: Round)
        ensures
            round.phase() == RoundPhase::KeyGenerated,
            round.terms() == terms,
            round.rows() == 0,
            framed(round.keys().evaluation(), parameters.config()),
            key_sound(round.keys().evaluation(), parameters.config()),
            serves(round.keys().evaluation(), round.keys().secret()),
    {
        Round {
            keys: SessionKeys::generate(parameters),
            terms,
            phase: RoundPhase::KeyGenerated,
            rows: 0,
        }
    }

    /// Opens a round under the provider's default parameters.
    pub fn open_default(terms: RoundTerms) -> (round: Round)
        ensures
            round.phase() == RoundPhase::KeyGenerated,
            round.terms() == terms,
            round.rows() == 0,
            serves(round.keys().evaluation(), round.keys().secret()),
    {
        Round {
            keys: SessionKeys::generate_default(),
            terms,
            phase: RoundPhase::KeyGenerated,
            rows: 0,
        }
    }

    /// Where the round stands.
    pub fn current_phase(&self) -> (phase: RoundPhase)
        ensures
            phase == self.phase(),
    {
        self.phase
    }

    /// Whether a request for `batch` may be built, as far as the round's
    /// phase and the agreed batch size decide it.
    pub open spec fn requestable(self, batch: Seq<Order>) -> Result<(), ProtocolError> {
        match gate(self.phase(), RoundPhase::KeyGenerated) {
            Err(e) => Err(e),
            Ok(_) => if batch.len() > self.terms().max_batch {
                Err(ProtocolError::State(StateViolation::BatchLimit))
            } else {
                Ok(())
            },
        }
    }

    /// Builds the request of the round from the party's batch. With the
    /// request the evaluation key leaves the party, and the round moves on
    /// to `KeyTransmitted`; the secret key stays. Where no request is
    /// returned, nothing has left and the round is as it was. A batch
    /// that may be sent is encrypted whole; its request fails only where
    /// the provider does not write the key or a ciphertext, with the place
    /// of the first that it does not write.
    pub fn request(&mut self, batch: &Orders) -> (r: Result<RoundRequest, ProtocolError>)
        ensures
            final(self).keys() == old(self).keys(),
            final(self).terms() == old(self).terms(),
            match old(self).requestable(batch.order@) {
                Err(refusal) => r matches Err(e) && e == refusal,
                Ok(_) => encodes(
                    match r {
                        Ok(request) => Ok(request@),
                        Err(e) => Err(e),
                    },
                    old(self).keys(),
                    old(self).terms().scope,
                    batch.order@,
                ),
            },
            match r {
                Ok(request) => {
                    &&& final(self).phase() == RoundPhase::KeyTransmitted
                    &&& final(self).rows() == batch.order@.len()
                    &&& request.rows() == batch.order@.len()
                    &&& key_on_wire(request.evaluation_key@) == Some(
                        old(self).keys().evaluation(),
                    )
                    &&& request.holds(
                        old(self).keys().secret(),
                        old(self).terms().scope,
                        batch.order@,
                    )
                    &&& request.fits(old(self).keys().evaluation())
                },
                Err(_) => {
                    &&& final(self).phase() == old(self).phase()
                    &&& final(self).rows() == old(self).rows()
                },
            },
    {
        match check_phase(self.phase, RoundPhase::KeyGenerated) {
            Ok(_) => {},
            Err(e) => {
                return Err(e);
            },
        }
        if batch.order.len() > self.terms.max_batch {
            return Err(ProtocolError::State(StateViolation::BatchLimit));
        }
        match encode_orders(&self.keys, batch, self.terms.scope) {
            Ok(request) => {
                self.phase = RoundPhase::KeyTransmitted;
                self.rows = batch.order.len();
                Ok(request)
            },
            Err(e) => Err(e),
        }
    }

    /// Opens the response of the round and reports whether anything
    /// matched, and which pairs; `cols` is the size of the counterparty's
    /// book. Every cell is opened. A response that is taken moves the round
    /// on to `EvaluationPerformed`; one that is refused retires it, and a
    /// new round needs new keys.
    ///
    /// A response is refused as a whole where it does not hold one payload
    /// for each pair of orders, where a payload is over the size bound or
    /// malformed, and where a cell does not have the shape of the round's
    /// keys.
    pub fn resolve(&mut self, response: &RoundResponse, cols: usize) -> (r: Result<
        MatchReport,
        ProtocolError,
    >)
        ensures
            final(self).keys() == old(self).keys(),
            final(self).terms() == old(self).terms(),
            final(self).rows() == old(self).rows(),
            match gate(old(self).phase(), RoundPhase::KeyTransmitted) {
                Err(e) => r == Err::<MatchReport, ProtocolError>(e) && final(self).phase() == old(
                    self,
                ).phase(),
                Ok(_) => match r {
                    Ok(report) => {
                        &&& final(self).phase() == RoundPhase::EvaluationPerformed
                        &&& acceptable(old(self).keys(), *response, old(self).rows(), cols as int)
                            is Ok
                        &&& exists|opened: Seq<bool>|
                            {
                                &&& #[trigger] opens_to(
                                    all_decoded::<FheBool>(
                                        response.match_ciphertexts@,
                                        Field::Cell,
                                    )->Ok_0,
                                    old(self).keys().secret(),
                                    opened,
                                )
                                &&& report.any_match == any_true(opened)
                                &&& report.pairs@ == hit_pairs(opened, cols as int)
                            }
                        &&& forall|expected: Seq<bool>| #[trigger]
                            response.holds(old(self).keys().secret(), expected) ==> {
                                &&& report.any_match == any_true(expected)
                                &&& report.pairs@ == hit_pairs(expected, cols as int)
                            }
                    },
                    Err(e) => {
                        &&& final(self).phase() == RoundPhase::Retired
                        &&& acceptable(old(self).keys(), *response, old(self).rows(), cols as int)
                            == Err::<(), ProtocolError>(e)
                    },
                },
            },
    {
        match check_phase(self.phase, RoundPhase::KeyTransmitted) {
            Ok(_) => {},
            Err(e) => {
                return Err(e);
            },
        }
        let outcome = open_response(&self.keys, response, self.rows, cols);
        match outcome {
            Ok(report) => {
                self.phase = RoundPhase::EvaluationPerformed;
                Ok(report)
            },
            Err(e) => {
                self.phase = RoundPhase::Retired;
                Err(e)
            },
        }
    }

    /// Opens the response of the round only as far as it takes to say
    /// whether anything matched: opening stops at the first cell that is
    /// set. The response is taken or refused, and the round moves, as in
    /// `resolve`.
    pub fn any_match(&mut self, response: &RoundResponse, cols: usize) -> (r: Result<
        bool,
        ProtocolError,
    >)
        ensures
            final(self).keys() == old(self).keys(),
            final(self).terms() == old(self).terms(),
            final(self).rows() == old(self).rows(),
            match gate(old(self).phase(), RoundPhase::KeyTransmitted) {
                Err(e) => r == Err::<bool, ProtocolError>(e) && final(self).phase() == old(
                    self,
                ).phase(),
                Ok(_) => match r {
                    Ok(found) => {
                        &&& final(self).phase() == RoundPhase::EvaluationPerformed
                        &&& acceptable(old(self).keys(), *response, old(self).rows(), cols as int)
                            is Ok
                        &&& forall|expected: Seq<bool>| #[trigger]
                            response.holds(old(self).keys().secret(), expected) ==> found
                                == any_true(expected)
                    },
                    Err(e) => {
                        &&& final(self).phase() == RoundPhase::Retired
                        &&& acceptable(old(self).keys(), *response, old(self).rows(), cols as int)
                            == Err::<(), ProtocolError>(e)
                    },
                },
            },
    {
        match check_phase(self.phase, RoundPhase::KeyTransmitted) {
            Ok(_) => {},
            Err(e) => {
                return Err(e);
            },
        }
        let outcome = peek_response(&self.keys, response, self.rows, cols);
        match outcome {
            Ok(found) => {
                self.phase = RoundPhase::EvaluationPerformed;
                Ok(found)
            },
            Err(e) => {
                self.phase = RoundPhase::Retired;
                Err(e)
            },
        }
    }

    /// Retires the round, from whatever phase: its keys are not used again.
    /// A party that abandons a round after its request went out retires it.
    pub fn retire(&mut self)
        ensures
            final(self).phase() == RoundPhase::Retired,
            final(self).keys() == old(self).keys(),
            final(self).terms() == old(self).terms(),
            final(self).rows() == old(self).rows(),
    {
        self.phase = RoundPhase::Retired;
    }
}

/// Decides whether a step that belongs to the phase `wanted` may be taken.
pub fn check_phase(phase: RoundPhase, wanted: RoundPhase) -> (r: Result<(), ProtocolError>)
    ensures
        r == gate(phase, wanted),
{
    let same = match (phase, wanted) {
        (RoundPhase::KeyGenerated, RoundPhase::KeyGenerated) => true,
        (RoundPhase::KeyTransmitted, RoundPhase::KeyTransmitted) => true,
        (RoundPhase::EvaluationPerformed, RoundPhase::EvaluationPerformed) => true,
        (RoundPhase::Retired, RoundPhase::Retired) => true,
        _ => false,
    };
    if same {
        Ok(())
    } else {
        match phase {
            RoundPhase::Retired => Err(ProtocolError::State(StateViolation::KeyRetired)),
            _ => Err(ProtocolError::State(StateViolation::OutOfOrder)),
        }
    }
}

/// Decodes a response to a batch of `rows` orders over a book of `cols`,
/// and opens and reduces its cells.
pub fn open_response(keys: &SessionKeys, response: &RoundResponse, rows: usize, cols: usize) -> (r:
    Result<MatchReport, ProtocolError>)
    ensures
        match r {
            Ok(report) => {
                &&& acceptable(*keys, *response, rows as int, cols as int) is Ok
                &&& exists|opened: Seq<bool>|
                    {
                        &&& #[trigger] opens_to(
                            all_decoded::<FheBool>(response.match_ciphertexts@, Field::Cell)->Ok_0,
                            keys.secret(),
                            opened,
                        )
                        &&& report.any_match == any_true(opened)
                        &&& report.pairs@ == hit_pairs(opened, cols as int)
                    }
                &&& forall|expected: Seq<bool>| #[trigger]
                    response.holds(keys.secret(), expected) ==> {
                        &&& report.any_match == any_true(expected)
                        &&& report.pairs@ == hit_pairs(expected, cols as int)
                    }
            },
            Err(e) => acceptable(*keys, *response, rows as int, cols as int) == Err::<
                (),
                ProtocolError,
            >(e),
        },
{
    if !spans(response.match_ciphertexts.len(), rows, cols) {
        return Err(ProtocolError::State(StateViolation::ResponseLength));
    }
    let cells = match read_all::<FheBool>(&response.match_ciphertexts, Field::Cell) {
        Ok(cells) => cells,
        Err(e) => {
            return Err(e);
        },
    };
    match resolve(keys, &cells, rows, cols) {
        Ok(report) => {
            proof {
                let opened = choose|opened: Seq<bool>|
                    {
                        &&& #[trigger] opens_to(cells@, keys.secret(), opened)
                        &&& report.any_match == any_true(opened)
                        &&& report.pairs@ == hit_pairs(opened, cols as int)
                    };
                assert forall|expected: Seq<bool>| #[trigger]
                    response.holds(keys.secret(), expected) implies {
                    &&& report.any_match == any_true(expected)
                    &&& report.pairs@ == hit_pairs(expected, cols as int)
                } by {
                    lemma_opens_to_what_is_held(cells@, keys.secret(), opened, expected);
                }
            }
            Ok(report)
        },
        Err(e) => Err(e),
    }
}

/// Decodes a response to a batch of `rows` orders over a book of `cols`,
/// and opens its cells up to the first that is set.
pub fn peek_response(keys: &SessionKeys, response: &RoundResponse, rows: usize, cols: usize) -> (r:
    Result<bool, ProtocolError>)
    ensures
        match r {
            Ok(found) => {
                &&& acceptable(*keys, *response, rows as int, cols as int) is Ok
                &&& forall|expected: Seq<bool>| #[trigger]
                    response.holds(keys.secret(), expected) ==> found == any_true(expected)
            },
            Err(e) => acceptable(*keys, *response, rows as int, cols as int) == Err::<
                (),
                ProtocolError,
            >(e),
        },
{
    if !spans(response.match_ciphertexts.len(), rows, cols) {
        return Err(ProtocolError::State(StateViolation::ResponseLength));
    }
    let cells = match read_all::<FheBool>(&response.match_ciphertexts, Field::Cell) {
        Ok(cells) => cells,
        Err(e) => {
            return Err(e);
        },
    };
    match any_match(keys, &cells, rows, cols) {
        Ok(found) => {
            proof {
                let opened = choose|opened: Seq<bool>| #[trigger]
                    opens_to(cells@, keys.secret(), opened) && found == any_true(opened);
                assert forall|expected: Seq<bool>| #[trigger]
                    response.holds(keys.secret(), expected) implies found == any_true(
                    expected,
                ) by {
                    lemma_opens_to_what_is_held(cells@, keys.secret(), opened, expected);
                }
            }
            Ok(found)
        },
        Err(e) => Err(e),
    }
}

/// Whether `e` is an error that a round between two parties of this
/// process can end in once both batches are within the agreed size: the
/// provider did not write the evaluation key, or a ciphertext of one of
/// the `rows` orders, or one of the `rows * cols` cells.
pub open spec fn unwritten(e: ProtocolError, scope: MatchScope, rows: int, cols: int) -> bool {
    e matches ProtocolError::Encoding { field, index } && match field {
        Field::EvaluationKey => index == 0,
        Field::Price | Field::Side => index < rows,
        Field::AssetA | Field::AssetB => scope is WithAssetPair && index < rows,
        Field::Cell => index < rows * cols,
    }
}

/// Whether `e` is what a round between two parties of this process fails
/// with once both batches are within the agreed size. Either the request
/// was not written: `e` is what encrypting `batch` under a key pair and
/// encoding the outcome gives. Or the response was not written: there are
/// cells that hold, for some secret key, the plaintext matrix of `batch`
/// and `book`, and `e` is the error that `write_all` returns for them.
pub open spec fn round_failed(
    e: ProtocolError,
    scope: MatchScope,
    batch: Seq<Order>,
    book: Seq<Order>,
) -> bool {
    ||| exists|keys: SessionKeys|
        #[trigger] encodes(Err::<RequestView, ProtocolError>(e), keys, scope, batch)
    ||| exists|cells: Seq<FheBool>, secret: ClientKey|
        {
            &&& #[trigger] cells_hold(cells, secret, plain_matrix(scope, batch, book))
            &&& all_encoded(cells, Field::Cell) == Err::<Seq<Seq<u8>>, ProtocolError>(e)
        }
}

/// A round that fails within the agreed size fails with an encoding error
/// that names the evaluation key, or a ciphertext of an order of the
/// batch, or a cell of the matrix.
pub proof fn law_failed_round_names_what_was_not_written(
    e: ProtocolError,
    scope: MatchScope,
    batch: Seq<Order>,
    book: Seq<Order>,
)
    requires
        round_failed(e, scope, batch, book),
    ensures
        unwritten(e, scope, batch.len() as int, book.len() as int),
{
    if exists|keys: SessionKeys|
        #[trigger] encodes(Err::<RequestView, ProtocolError>(e), keys, scope, batch) {
        let keys = choose|keys: SessionKeys|
            #[trigger] encodes(Err::<RequestView, ProtocolError>(e), keys, scope, batch);
        let sealed = choose|sealed: BatchView|
            {
                &&& #[trigger] sealed.holds(keys.secret(), scope, batch)
                &&& sealed.fits(keys.evaluation())
                &&& Err::<RequestView, ProtocolError>(e) == request_encoded(
                    keys.evaluation(),
                    sealed,
                )
            };
        lemma_unwritten_request_is_inside(keys.evaluation(), sealed, scope, e, book.len() as int);
    } else {
        let (cells, secret) = choose|cells: Seq<FheBool>, secret: ClientKey|
            {
                &&& #[trigger] cells_hold(cells, secret, plain_matrix(scope, batch, book))
                &&& all_encoded(cells, Field::Cell) == Err::<Seq<Seq<u8>>, ProtocolError>(e)
            };
        lemma_unwritten_is_inside(cells, Field::Cell, e);
    }
}

/// An encoding error of a vector names a position inside the vector.
pub proof fn lemma_unwritten_is_inside<T: Ciphertext>(
    items: Seq<T>,
    field: Field,
    e: ProtocolError,
)
    requires
        all_encoded(items, field) == Err::<Seq<Seq<u8>>, ProtocolError>(e),
    ensures
        e matches ProtocolError::Encoding { field: at, index } && at == field && index
            < items.len(),
{
    lemma_first_false(writable(items));
}

/// An encoding error of a request names the key, or a position inside one
/// of the vectors of the batch.
pub proof fn lemma_unwritten_request_is_inside(
    evaluation: ServerKey,
    batch: BatchView,
    scope: MatchScope,
    e: ProtocolError,
    cols: int,
)
    requires
        batch.well_shaped(scope),
        request_encoded(evaluation, batch) == Err::<RequestView, ProtocolError>(e),
    ensures
        unwritten(e, scope, batch.rows(), cols),
{
    if key_encoded(evaluation) is Ok {
        if all_encoded(batch.prices, Field::Price) is Err {
            lemma_unwritten_is_inside(batch.prices, Field::Price, e);
        } else if all_encoded(batch.sides, Field::Side) is Err {
            lemma_unwritten_is_inside(batch.sides, Field::Side, e);
        } else if all_encoded(batch.asset_a, Field::AssetA) is Err {
            lemma_unwritten_is_inside(batch.asset_a, Field::AssetA, e);
        } else {
            lemma_unwritten_is_inside(batch.asset_b, Field::AssetB, e);
        }
    }
}

/// Runs one round with both parties in this process: `batch` is encrypted
/// under fresh keys, compared with the plaintext `book`, and the answer is
/// opened. Every message goes through its encoding as it would between two
/// machines. What is reported is what comparing the two books in plaintext
/// gives. Within the agreed size the round fails only where the provider
/// does not write one of its messages' parts.
pub fn run_round(batch: &Orders, book: &Orders, parameters: &Parameters, terms: RoundTerms) -> (r:
    Result<MatchReport, ProtocolError>)
    ensures
        match r {
            Ok(report) => {
                &&& within_limits(
                    batch.order@.len() as int,
                    book.order@.len() as int,
                    terms.max_batch as int,
                )
                &&& report.any_match == any_cross(terms.scope, batch.order@, book.order@)
                &&& report.pairs@ == hit_pairs(
                    plain_matrix(terms.scope, batch.order@, book.order@),
                    book.order@.len() as int,
                )
            },
            Err(e) => if within_limits(
                batch.order@.len() as int,
                book.order@.len() as int,
                terms.max_batch as int,
            ) {
                round_failed(e, terms.scope, batch.order@, book.order@)
            } else {
                e == ProtocolError::State(StateViolation::BatchLimit)
            },
        },
{
    let rows = batch.order.len();
    let cols = book.order.len();
    if rows > terms.max_batch || cols > terms.max_batch || rows.checked_mul(cols).is_none() {
        return Err(ProtocolError::State(StateViolation::BatchLimit));
    }
    let mut round = Round::open(parameters, terms);
    let ghost keys = round.keys();
    let request = match round.request(batch) {
        Ok(request) => request,
        Err(e) => {
            proof {
                assert(encodes(
                    Err::<RequestView, ProtocolError>(e),
                    keys,
                    terms.scope,
                    batch.order@,
                ));
            }
            return Err(e);
        },
    };
    let key = match read_written_key(request.evaluation_key.as_slice()) {
        Some(key) => key,
        None => {
            return Err(ProtocolError::Encoding { field: Field::EvaluationKey, index: 0 });
        },
    };
    let evaluation = match EvaluationKey::check(key, parameters) {
        Some(evaluation) => evaluation,
        None => {
            return Err(ProtocolError::Encoding { field: Field::EvaluationKey, index: 0 });
        },
    };
    proof {
        assert(evaluation.key() == keys.evaluation());
        assert(serves(evaluation.key(), keys.secret()));
        assert(request.holds(keys.secret(), terms.scope, batch.order@));
        assert(request.well_shaped(terms.scope));
        assert(request.sized(cols as int, terms) is Ok);
        lemma_no_misfit_fits(request.batch()->Ok_0, evaluation.key());
        assert(answerable(evaluation.key(), request, cols as int, terms) is Ok);
    }
    let response = match answer_request(&evaluation, &request, book, &terms) {
        Ok(response) => response,
        Err(e) => {
            proof {
                let cells = choose|cells: Seq<FheBool>|
                    {
                        &&& #[trigger] evaluated(
                            cells,
                            evaluation.key(),
                            request.batch()->Ok_0,
                            terms.scope,
                            book.order@,
                        )
                        &&& Err::<Seq<Seq<u8>>, ProtocolError>(e) == all_encoded(
                            cells,
                            Field::Cell,
                        )
                    };
                assert(cells_hold(
                    cells,
                    keys.secret(),
                    plain_matrix(terms.scope, batch.order@, book.order@),
                ));
            }
            round.retire();
            return Err(e);
        },
    };
    let ghost expected = plain_matrix(terms.scope, batch.order@, book.order@);
    proof {
        assert(response.holds(keys.secret(), expected));
        assert(response.fits(keys.evaluation()));
        let cells = all_decoded::<FheBool>(response.match_ciphertexts@, Field::Cell)->Ok_0;
        lemma_all_fit(cells, keys.evaluation());
        assert(acceptable(keys, response, rows as int, cols as int) is Ok);
    }
    let resolved = round.resolve(&response, cols);
    round.retire();
    resolved
}

/// Runs a session in both directions with both parties in this process:
/// one round in which the first party's book is the encrypted batch, and
/// one, under keys of its own, in which the second party's is. Both rounds
/// agree on whether anything matched.
pub fn run_session(
    first: &Orders,
    second: &Orders,
    first_parameters: &Parameters,
    second_parameters: &Parameters,
    terms: RoundTerms,
) -> (r: Result<(MatchReport, MatchReport), ProtocolError>)
    ensures
        match r {
            Ok(reports) => {
                &&& reports.0.any_match == any_cross(terms.scope, first.order@, second.order@)
                &&& reports.1.any_match == reports.0.any_match
                &&& reports.0.pairs@ == hit_pairs(
                    plain_matrix(terms.scope, first.order@, second.order@),
                    second.order@.len() as int,
                )
                &&& reports.1.pairs@ == hit_pairs(
                    plain_matrix(terms.scope, second.order@, first.order@),
                    first.order@.len() as int,
                )
            },
            Err(e) => if within_limits(
                first.order@.len() as int,
                second.order@.len() as int,
                terms.max_batch as int,
            ) {
                ||| round_failed(e, terms.scope, first.order@, second.order@)
                ||| round_failed(e, terms.scope, second.order@, first.order@)
            } else {
                e == ProtocolError::State(StateViolation::BatchLimit)
            },
        },
{
    proof {
        assert(first.order@.len() * second.order@.len() == second.order@.len()
            * first.order@.len()) by (nonlinear_arith);
    }
    let for_first = match run_round(first, second, first_parameters, terms) {
        Ok(report) => report,
        Err(e) => {
            return Err(e);
        },
    };
    let for_second = match run_round(second, first, second_parameters, terms) {
        Ok(report) => report,
        Err(e) => {
            return Err(e);
        },
    };
    proof {
        law_any_match_is_symmetric(terms.scope, first.order@, second.order@);
    }
    Ok((for_first, for_second))
}

} // verus!
