//! The messages of a round and the encoding of ciphertext vectors. This is
//! a codec: it compares nothing and opens nothing.

use crate::common::{
    decoded, encoded, safe_deserialize_item, safe_serialize_item, Ciphertext, CodecError, Field,
    Order, ProtocolError, RoundTerms, StateViolation, MAX_PAYLOAD_BYTES,
};
use crate::evaluator::{all_fit, cells_hold, within_limits, BatchView};
use crate::matching::MatchScope;
use crate::provider::CipherU32;
use crate::scan::{first_false, lemma_first_false_is, lemma_first_false_none};
use crate::session::key_encoded;
use tfhe::{ClientKey, FheBool, ServerKey};
use vstd::prelude::*;

verus! {

/// What the originating party sends: its evaluation key and, for each
/// order of its batch, one encoded ciphertext per compared field. The asset
/// vectors are empty where the pair is public.
pub struct RoundRequest {
    pub evaluation_key: Vec<u8>,
    pub price_ciphertexts: Vec<Vec<u8>>,
    pub side_ciphertexts: Vec<Vec<u8>>,
    pub asset_a_ciphertexts: Vec<Vec<u8>>,
    pub asset_b_ciphertexts: Vec<Vec<u8>>,
}

/// What the evaluating party returns: the encoded cells of the match
/// matrix, row-major.
pub struct RoundResponse {
    pub match_ciphertexts: Vec<Vec<u8>>,
}

/// A request as sequences of bytes.
pub struct RequestView {
    pub evaluation_key: Seq<u8>,
    pub price_ciphertexts: Seq<Seq<u8>>,
    pub side_ciphertexts: Seq<Seq<u8>>,
    pub asset_a_ciphertexts: Seq<Seq<u8>>,
    pub asset_b_ciphertexts: Seq<Seq<u8>>,
}

impl View for RoundRequest {
    type V = RequestView;

    open spec fn view(&self) -> RequestView {
        RequestView {
            evaluation_key: self.evaluation_key@,
            price_ciphertexts: bytes_of(self.price_ciphertexts@),
            side_ciphertexts: bytes_of(self.side_ciphertexts@),
            asset_a_ciphertexts: bytes_of(self.asset_a_ciphertexts@),
            asset_b_ciphertexts: bytes_of(self.asset_b_ciphertexts@),
        }
    }
}

/// The payloads as sequences of bytes.
pub open spec fn bytes_of(payloads: Seq<Vec<u8>>) -> Seq<Seq<u8>> {
    payloads.map_values(|p: Vec<u8>| p@)
}

/// The error of a round for an error of one ciphertext, at position `index`
/// of the vector `field`.
pub open spec fn lift(e: CodecError, field: Field, index: int) -> ProtocolError {
    match e {
        CodecError::Encoding => ProtocolError::Encoding { field, index: index as usize },
        CodecError::PayloadTooLarge => ProtocolError::PayloadTooLarge {
            field,
            index: index as usize,
        },
        CodecError::Malformed => ProtocolError::Malformed { field, index: index as usize },
    }
}

/// For each payload, whether it decodes.
pub open spec fn readable<T: Ciphertext>(payloads: Seq<Vec<u8>>) -> Seq<bool> {
    payloads.map_values(|p: Vec<u8>| decoded::<T>(p@) is Ok)
}

/// What `read_all` returns for a vector of payloads: the ciphertexts that
/// they decode to, or the error of the first payload that does not decode.
pub open spec fn all_decoded<T: Ciphertext>(payloads: Seq<Vec<u8>>, field: Field) -> Result<
    Seq<T>,
    ProtocolError,
> {
    match first_false(readable::<T>(payloads)) {
        Some(k) => Err(lift(decoded::<T>(payloads[k]@)->Err_0, field, k)),
        None => Ok(payloads.map_values(|p: Vec<u8>| decoded::<T>(p@)->Ok_0)),
    }
}

/// For each ciphertext, whether the provider writes it within the size
/// bound.
pub open spec fn writable<T: Ciphertext>(items: Seq<T>) -> Seq<bool> {
    items.map_values(|c: T| c.written() is Some)
}

/// What `write_all` returns for a vector of ciphertexts: what the provider
/// writes for each, or an encoding error at the first that it does not
/// write.
pub open spec fn all_encoded<T: Ciphertext>(items: Seq<T>, field: Field) -> Result<
    Seq<Seq<u8>>,
    ProtocolError,
> {
    match first_false(writable(items)) {
        Some(k) => Err(ProtocolError::Encoding { field, index: k as usize }),
        None => Ok(items.map_values(|c: T| c.written()->0)),
    }
}

/// Whether `payloads` are encodings of `items`, position by position, each
/// not empty and within the size bound.
pub open spec fn carries<T: Ciphertext>(payloads: Seq<Vec<u8>>, items: Seq<T>) -> bool {
    &&& payloads.len() == items.len()
    &&& forall|i: int|
        0 <= i < payloads.len() ==> 0 < (#[trigger] payloads[i])@.len() <= MAX_PAYLOAD_BYTES
            && T::on_wire(payloads[i]@) == Some(items[i])
}

/// What was written by `write_all` is read back by `read_all`, whole and in
/// place.
pub proof fn law_written_reads_back<T: Ciphertext>(
    payloads: Seq<Vec<u8>>,
    items: Seq<T>,
    field: Field,
)
    requires
        carries(payloads, items),
    ensures
        all_decoded::<T>(payloads, field) == Ok::<Seq<T>, ProtocolError>(items),
{
    let passes = readable::<T>(payloads);
    assert forall|i: int| 0 <= i < passes.len() implies #[trigger] passes[i] by {
        assert(payloads[i]@.len() <= MAX_PAYLOAD_BYTES);
    }
    lemma_first_false_none(passes);
    let read = payloads.map_values(|p: Vec<u8>| decoded::<T>(p@)->Ok_0);
    assert forall|i: int| 0 <= i < read.len() implies read[i] == items[i] by {
        assert(payloads[i]@.len() <= MAX_PAYLOAD_BYTES);
    }
    assert(read =~= items);
}

/// Places the error of one ciphertext at a position of a vector.
pub fn place(e: CodecError, field: Field, index: usize) -> (r: ProtocolError)
    ensures
        r == lift(e, field, index as int),
{
    match e {
        CodecError::Encoding => ProtocolError::Encoding { field, index },
        CodecError::PayloadTooLarge => ProtocolError::PayloadTooLarge { field, index },
        CodecError::Malformed => ProtocolError::Malformed { field, index },
    }
}

/// Encodes each ciphertext on its own. The first one that cannot be written
/// within the size bound fails the whole vector, with its position; where
/// there is none, every ciphertext is written, in place.
pub fn write_all<T: Ciphertext>(items: &Vec<T>, field: Field) -> (r: Result<
    Vec<Vec<u8>>,
    ProtocolError,
>)
    ensures
        all_encoded(items@, field) == match r {
            Ok(payloads) => Ok::<Seq<Seq<u8>>, ProtocolError>(bytes_of(payloads@)),
            Err(e) => Err(e),
        },
        r matches Ok(payloads) ==> carries(payloads@, items@),
{
    let ghost passes = writable(items@);
    let mut payloads: Vec<Vec<u8>> = Vec::new();
    let mut i: usize = 0;
    while i < items.len()
        invariant
            i <= items@.len(),
            passes == writable(items@),
            forall|k: int| 0 <= k < i ==> #[trigger] passes[k],
            payloads@.len() == i,
            forall|k: int| 0 <= k < i ==> (#[trigger] payloads@[k])@ == items@[k].written()->0,
            carries(payloads@, items@.take(i as int)),
        decreases items@.len() - i,
    {
        match safe_serialize_item(&items[i]) {
            Ok(bytes) => {
                let ghost before = payloads@;
                payloads.push(bytes);
                proof {
                    let taken = items@.take(i + 1);
                    assert(encoded(items@[i as int]) is Ok);
                    assert forall|k: int| 0 <= k < payloads@.len() implies 0 < (
                    #[trigger] payloads@[k])@.len() <= MAX_PAYLOAD_BYTES && T::on_wire(
                        payloads@[k]@,
                    ) == Some(taken[k]) by {
                        if k < i {
                            assert(payloads@[k] == before[k]);
                            assert(taken[k] == items@.take(i as int)[k]);
                        }
                    }
                    assert forall|k: int| 0 <= k < i + 1 implies (#[trigger] payloads@[k])@
                        == items@[k].written()->0 by {
                        if k < i {
                            assert(payloads@[k] == before[k]);
                        }
                    }
                }
            },
            Err(e) => {
                proof {
                    assert(encoded(items@[i as int]) is Err);
                    lemma_first_false_is(passes, i as int);
                }
                return Err(place(e, field, i));
            },
        }
        i = i + 1;
    }
    proof {
        assert(items@.take(i as int) =~= items@);
        lemma_first_false_none(passes);
        assert(bytes_of(payloads@) =~= items@.map_values(|c: T| c.written()->0));
    }
    Ok(payloads)
}

/// Decodes each payload on its own. The first one that is over the size
/// bound or that the provider refuses fails the whole vector, with its
/// position; nothing behind it is looked at.
pub fn read_all<T: Ciphertext>(payloads: &Vec<Vec<u8>>, field: Field) -> (r: Result<
    Vec<T>,
    ProtocolError,
>)
    ensures
        match r {
            Ok(items) => all_decoded::<T>(payloads@, field) == Ok::<Seq<T>, ProtocolError>(items@),
            Err(e) => all_decoded::<T>(payloads@, field) == Err::<Seq<T>, ProtocolError>(e),
        },
{
    let mut items: Vec<T> = Vec::new();
    let mut i: usize = 0;
    let ghost passes = readable::<T>(payloads@);
    while i < payloads.len()
        invariant
            i <= payloads@.len(),
            passes == readable::<T>(payloads@),
            items@.len() == i,
            forall|k: int| 0 <= k < i ==> #[trigger] passes[k],
            forall|k: int|
                0 <= k < i ==> decoded::<T>(payloads@[k]@) == Ok::<T, CodecError>(
                    #[trigger] items@[k],
                ),
        decreases payloads@.len() - i,
    {
        match safe_deserialize_item::<T>(payloads[i].as_slice()) {
            Ok(item) => {
                let ghost before = items@;
                items.push(item);
                proof {
                    assert forall|k: int| 0 <= k < i + 1 implies decoded::<T>(payloads@[k]@)
                        == Ok::<T, CodecError>(#[trigger] items@[k]) by {
                        if k < i {
                            assert(items@[k] == before[k]);
                        }
                    }
                }
            },
            Err(e) => {
                proof {
                    lemma_first_false_is(passes, i as int);
                }
                return Err(place(e, field, i));
            },
        }
        i = i + 1;
    }
    proof {
        lemma_first_false_none(passes);
        assert(items@ =~= payloads@.map_values(|p: Vec<u8>| decoded::<T>(p@)->Ok_0));
    }
    Ok(items)
}

impl RoundRequest {
    /// The number of orders that the request stands for.
    pub open spec fn rows(self) -> int {
        self.price_ciphertexts@.len() as int
    }

    /// Whether the vectors have the lengths that `scope` asks for: one side
    /// for each price, and asset identifiers for all orders or for none.
    pub open spec fn well_shaped(self, scope: MatchScope) -> bool {
        &&& self.side_ciphertexts@.len() == self.price_ciphertexts@.len()
        &&& self.asset_a_ciphertexts@.len() == (if scope is WithAssetPair {
            self.price_ciphertexts@.len()
        } else {
            0
        })
        &&& self.asset_b_ciphertexts@.len() == self.asset_a_ciphertexts@.len()
    }

    /// What can be told of a request from the lengths of its vectors alone,
    /// against a book of `cols` orders: whether its shape is the agreed one
    /// and whether both batches are within the agreed size.
    pub open spec fn sized(self, cols: int, terms: RoundTerms) -> Result<(), ProtocolError> {
        if !self.well_shaped(terms.scope) {
            Err(ProtocolError::State(StateViolation::RequestShape))
        } else if !within_limits(self.rows(), cols, terms.max_batch as int) {
            Err(ProtocolError::State(StateViolation::BatchLimit))
        } else {
            Ok(())
        }
    }

    /// The batch that the payloads of the request decode to, or the error of
    /// the first payload that does not decode. The vectors are gone through
    /// one after the other: prices, sides, first and second asset
    /// identifiers.
    pub open spec fn batch(self) -> Result<BatchView, ProtocolError> {
        match all_decoded::<CipherU32>(self.price_ciphertexts@, Field::Price) {
            Err(e) => Err(e),
            Ok(prices) => match all_decoded::<FheBool>(self.side_ciphertexts@, Field::Side) {
                Err(e) => Err(e),
                Ok(sides) => match all_decoded::<CipherU32>(
                    self.asset_a_ciphertexts@,
                    Field::AssetA,
                ) {
                    Err(e) => Err(e),
                    Ok(asset_a) => match all_decoded::<CipherU32>(
                        self.asset_b_ciphertexts@,
                        Field::AssetB,
                    ) {
                        Err(e) => Err(e),
                        Ok(asset_b) => Ok(BatchView { prices, sides, asset_a, asset_b }),
                    },
                },
            },
        }
    }

    /// Whether the ciphertexts of the request hold, for the owner of
    /// `secret`, the fields of `orders`, as far as `scope` compares them.
    pub open spec fn holds(self, secret: ClientKey, scope: MatchScope, orders: Seq<Order>) -> bool {
        self.batch() matches Ok(batch) && batch.holds(secret, scope, orders)
    }

    /// Whether the request decodes to ciphertexts that all have the shape
    /// that `evaluation` computes on.
    pub open spec fn fits(self, evaluation: ServerKey) -> bool {
        self.batch() matches Ok(batch) && batch.fits(evaluation)
    }
}

/// What `write_request` returns for an evaluation key and a sealed batch:
/// what the provider writes for the key and for each ciphertext, or an
/// encoding error at the first that it does not write. The key comes
/// first, then prices, sides, first and second asset identifiers.
pub open spec fn request_encoded(evaluation: ServerKey, batch: BatchView) -> Result<
    RequestView,
    ProtocolError,
> {
    match key_encoded(evaluation) {
        Err(e) => Err(e),
        Ok(evaluation_key) => match all_encoded(batch.prices, Field::Price) {
            Err(e) => Err(e),
            Ok(price_ciphertexts) => match all_encoded(batch.sides, Field::Side) {
                Err(e) => Err(e),
                Ok(side_ciphertexts) => match all_encoded(batch.asset_a, Field::AssetA) {
                    Err(e) => Err(e),
                    Ok(asset_a_ciphertexts) => match all_encoded(batch.asset_b, Field::AssetB) {
                        Err(e) => Err(e),
                        Ok(asset_b_ciphertexts) => Ok(
                            RequestView {
                                evaluation_key,
                                price_ciphertexts,
                                side_ciphertexts,
                                asset_a_ciphertexts,
                                asset_b_ciphertexts,
                            },
                        ),
                    },
                },
            },
        }
    }
}

impl RoundResponse {
    /// Whether the response decodes to cells that all have the shape that
    /// `evaluation` computes on.
    pub open spec fn fits(self, evaluation: ServerKey) -> bool {
        all_decoded::<FheBool>(self.match_ciphertexts@, Field::Cell) matches Ok(cells) && all_fit(
            cells,
            evaluation,
        )
    }

    /// Whether the response carries, for the owner of `secret`, the
    /// plaintext cells `expected`, position by position.
    pub open spec fn holds(self, secret: ClientKey, expected: Seq<bool>) -> bool {
        all_decoded::<FheBool>(self.match_ciphertexts@, Field::Cell) matches Ok(cells)
            && cells_hold(cells, secret, expected)
    }
}

} // verus!
