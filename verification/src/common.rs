//! The plaintext order model, the errors of a matching round, and the
//! bounded encoding of single ciphertexts.

use crate::matching::MatchScope;
use crate::provider::{
    flag_conforms, flag_fits, flag_on_wire, flag_written, read_flag, read_word, usable,
    word_conforms, word_fits, word_on_wire, word_written, write_flag, write_word, CipherU32,
};
use crate::sealed::Sealed;
use tfhe::{FheBool, ServerKey};
use vstd::prelude::*;

verus! {

/// The largest encoded ciphertext that is written or accepted, in bytes: 1 MiB.
pub const MAX_PAYLOAD_BYTES: usize = 1048576;

/// One trading order. `a_for_b` is the side: `true` offers `asset_a` for
/// `asset_b`, `false` the reverse.
#[derive(Clone, Copy, Debug, PartialEq, Eq)]
pub struct Order {
    pub id: u32,
    pub asset_a: u32,
    pub asset_b: u32,
    pub price: u32,
    pub a_for_b: bool,
}

/// The orders one party submits for one matching round, in the order that
/// fixes the rows (or columns) of the match matrix.
#[derive(Clone, Debug)]
pub struct Orders {
    pub order: Vec<Order>,
}

/// Why a single ciphertext could not be encoded or decoded.
#[derive(Clone, Copy, Debug, PartialEq, Eq)]
pub enum CodecError {
    /// The provider could not write the ciphertext within the size bound.
    Encoding,
    /// The payload is longer than `MAX_PAYLOAD_BYTES`; it was not looked at.
    PayloadTooLarge,
    /// The provider refused the payload.
    Malformed,
}

/// Which part of a message an error speaks of.
#[derive(Clone, Copy, Debug, PartialEq, Eq)]
pub enum Field {
    /// The evaluation key of a request.
    EvaluationKey,
    /// The encrypted prices of a request.
    Price,
    /// The encrypted sides of a request.
    Side,
    /// The encrypted first asset identifiers of a request.
    AssetA,
    /// The encrypted second asset identifiers of a request.
    AssetB,
    /// The encrypted cells of a response.
    Cell,
}

/// How a message or a call can break the rules of a round.
#[derive(Clone, Copy, Debug, PartialEq, Eq)]
pub enum StateViolation {
    /// A batch holds more orders than the parties agreed on, or the two
    /// batches span a matrix too large to index.
    BatchLimit,
    /// The ciphertext vectors of a request differ in length, or asset
    /// identifiers are present where the agreed scope leaves them out.
    RequestShape,
    /// A response does not hold one cell for each pair of orders.
    ResponseLength,
    /// A step was asked for before the step that it follows.
    OutOfOrder,
    /// The round's keys were asked for again after the round was retired.
    KeyRetired,
}

/// Why a round was rejected. A round is rejected as a whole: no function
/// returns a part of a result beside an error.
#[derive(Clone, Copy, Debug, PartialEq, Eq)]
pub enum ProtocolError {
    /// An order's field could not be encrypted, or its ciphertext could not
    /// be written within the size bound. `index` is the order's position.
    Encoding { field: Field, index: usize },
    /// An inbound payload is longer than `MAX_PAYLOAD_BYTES`.
    PayloadTooLarge { field: Field, index: usize },
    /// The provider refused an inbound payload.
    Malformed { field: Field, index: usize },
    /// An inbound ciphertext does not have the shape of the evaluation key
    /// that it is to be used with.
    KeyMismatch { field: Field, index: usize },
    /// The round's rules were broken.
    State(StateViolation),
}

/// What two parties agree on before a round: which fields are compared, and
/// how many orders a batch may hold.
#[derive(Clone, Copy, Debug, PartialEq, Eq)]
pub struct RoundTerms {
    pub scope: MatchScope,
    pub max_batch: usize,
}

/// A ciphertext that travels between the parties: an encrypted number or an
/// encrypted boolean. The library implements it for both and for nothing
/// else.
pub trait Ciphertext: Sized + Sealed {
    /// The ciphertext that the provider reads from `bytes` under the size
    /// bound, if it reads one.
    spec fn on_wire(bytes: Seq<u8>) -> Option<Self>;

    /// What the provider writes for the ciphertext under the size bound;
    /// `None` where the bound is too small for it.
    spec fn written(self) -> Option<Seq<u8>>;

    /// Whether the ciphertext has the shape that `evaluation` computes on.
    spec fn fits(self, evaluation: ServerKey) -> bool;

    /// Writes the ciphertext in the provider's versioned format, bounded by
    /// `MAX_PAYLOAD_BYTES`. What is written is not empty, is within the
    /// bound, and reads back as the ciphertext.
    fn write_bounded(&self) -> (r: Result<Vec<u8>, CodecError>)
        ensures
            match r {
                Ok(bytes) => self.written() == Some(bytes@),
                Err(e) => e == CodecError::Encoding && self.written() is None,
            },
            r matches Ok(bytes) ==> 0 < bytes@.len() <= MAX_PAYLOAD_BYTES && Self::on_wire(bytes@)
                == Some(*self),
    ;

    /// Reads a ciphertext in the provider's versioned format from a payload
    /// that is within `MAX_PAYLOAD_BYTES`.
    fn read_bounded(data: &[u8]) -> (r: Result<Self, CodecError>)
        requires
            data@.len() <= MAX_PAYLOAD_BYTES,
        ensures
            r matches Ok(item) ==> Self::on_wire(data@) == Some(item),
            r matches Err(e) ==> e == CodecError::Malformed && Self::on_wire(data@) is None,
    ;

    /// Tests the ciphertext's shape against the parameters of `evaluation`,
    /// a key that was held against the round's parameters.
    fn conforms(&self, evaluation: &ServerKey) -> (r: bool)
        requires
            usable(*evaluation),
        ensures
            r == self.fits(*evaluation),
    ;
}

/// What `safe_serialize_item` returns for a ciphertext, given what the
/// provider writes for it: the bytes, or an encoding error where the size
/// bound is too small.
pub open spec fn encoded<T: Ciphertext>(item: T) -> Result<Seq<u8>, CodecError> {
    match item.written() {
        Some(bytes) => Ok(bytes),
        None => Err(CodecError::Encoding),
    }
}

impl Ciphertext for CipherU32 {
    open spec fn on_wire(bytes: Seq<u8>) -> Option<Self> {
        word_on_wire(bytes, MAX_PAYLOAD_BYTES as u64)
    }

    open spec fn written(self) -> Option<Seq<u8>> {
        word_written(self, MAX_PAYLOAD_BYTES as u64)
    }

    open spec fn fits(self, evaluation: ServerKey) -> bool {
        word_fits(self, evaluation)
    }

    fn write_bounded(&self) -> (r: Result<Vec<u8>, CodecError>) {
        match write_word(self, MAX_PAYLOAD_BYTES as u64) {
            Ok(bytes) => Ok(bytes),
            Err(_) => Err(CodecError::Encoding),
        }
    }

    fn read_bounded(data: &[u8]) -> (r: Result<Self, CodecError>) {
        match read_word(data, MAX_PAYLOAD_BYTES as u64) {
            Ok(item) => Ok(item),
            Err(_) => Err(CodecError::Malformed),
        }
    }

    fn conforms(&self, evaluation: &ServerKey) -> (r: bool) {
        word_conforms(self, evaluation)
    }
}

impl Ciphertext for FheBool {
    open spec fn on_wire(bytes: Seq<u8>) -> Option<Self> {
        flag_on_wire(bytes, MAX_PAYLOAD_BYTES as u64)
    }

    open spec fn written(self) -> Option<Seq<u8>> {
        flag_written(self, MAX_PAYLOAD_BYTES as u64)
    }

    open spec fn fits(self, evaluation: ServerKey) -> bool {
        flag_fits(self, evaluation)
    }

    fn write_bounded(&self) -> (r: Result<Vec<u8>, CodecError>) {
        match write_flag(self, MAX_PAYLOAD_BYTES as u64) {
            Ok(bytes) => Ok(bytes),
            Err(_) => Err(CodecError::Encoding),
        }
    }

    fn read_bounded(data: &[u8]) -> (r: Result<Self, CodecError>) {
        match read_flag(data, MAX_PAYLOAD_BYTES as u64) {
            Ok(item) => Ok(item),
            Err(_) => Err(CodecError::Malformed),
        }
    }

    fn conforms(&self, evaluation: &ServerKey) -> (r: bool) {
        flag_conforms(self, evaluation)
    }
}

/// Encodes one ciphertext for transmission. What is returned depends on
/// the ciphertext alone: two encodings of one ciphertext agree. An encoding
/// that would exceed `MAX_PAYLOAD_BYTES` is an error, never a truncation:
/// what is returned is not empty, is within the bound, and
/// `safe_deserialize_item` reads `item` back from it.
pub fn safe_serialize_item<T: Ciphertext>(item: &T) -> (r: Result<Vec<u8>, CodecError>)
    ensures
        encoded(*item) == match r {
            Ok(bytes) => Ok::<Seq<u8>, CodecError>(bytes@),
            Err(e) => Err(e),
        },
        r matches Ok(bytes) ==> 0 < bytes@.len() <= MAX_PAYLOAD_BYTES && decoded::<T>(bytes@)
            == Ok::<T, CodecError>(*item),
{
    item.write_bounded()
}

/// What `safe_deserialize_item` returns for a payload, given what the
/// provider makes of it: a payload over the bound is refused unread, one
/// that the provider refuses is malformed.
pub open spec fn decoded<T: Ciphertext>(data: Seq<u8>) -> Result<T, CodecError> {
    if data.len() > MAX_PAYLOAD_BYTES {
        Err(CodecError::PayloadTooLarge)
    } else {
        match T::on_wire(data) {
            Some(item) => Ok(item),
            None => Err(CodecError::Malformed),
        }
    }
}

/// Decodes one ciphertext that a counterparty sent. A payload longer than
/// `MAX_PAYLOAD_BYTES` is refused before the provider sees it.
pub fn safe_deserialize_item<T: Ciphertext>(data: &[u8]) -> (r: Result<T, CodecError>)
    ensures
        r == decoded::<T>(data@),
{
    if data.len() > MAX_PAYLOAD_BYTES {
        return Err(CodecError::PayloadTooLarge);
    }
    T::read_bounded(data)
}

} // verus!
