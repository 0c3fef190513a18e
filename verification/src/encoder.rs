//! The order encoder: encrypts the compared fields of a party's batch under
//! the round's keys and encodes them for the counterparty.

use crate::common::{Field, Order, Orders, ProtocolError};
use crate::evaluator::{all_fit, BatchView, SealedBatch};
use crate::matching::MatchScope;
use crate::provider::{flag_inside, key_on_wire, word_inside, CipherU32};
use crate::session::SessionKeys;
use crate::transport::{
    law_written_reads_back, request_encoded, write_all, RequestView, RoundRequest,
};
use tfhe::FheBool;
use vstd::prelude::*;

verus! {

/// Encrypts every compared field of every order, each on its own: price and
/// side, and under `WithAssetPair` both asset identifiers. Identifiers of
/// orders are never encrypted nor sent. Every price and identifier is in
/// the range of the scheme's 32-bit type, so every batch is encrypted
/// whole: no order is left out and nothing is cut short. The ciphertexts
/// have the shape of the round's evaluation key.
pub fn seal_orders(keys: &SessionKeys, batch: &Orders, scope: MatchScope) -> (r: Result<
    SealedBatch,
    ProtocolError,
>)
    ensures
        r is Ok,
        r matches Ok(sealed) ==> sealed@.holds(keys.secret(), scope, batch.order@) && sealed@.fits(
            keys.evaluation(),
        ),
{
    let with_pair = match scope {
        MatchScope::PriceAndSide => false,
        MatchScope::WithAssetPair => true,
    };
    let mut prices: Vec<CipherU32> = Vec::new();
    let mut sides: Vec<FheBool> = Vec::new();
    let mut asset_a: Vec<CipherU32> = Vec::new();
    let mut asset_b: Vec<CipherU32> = Vec::new();
    let ghost secret = keys.secret();
    let ghost evaluation = keys.evaluation();
    let mut i: usize = 0;
    while i < batch.order.len()
        invariant
            i <= batch.order@.len(),
            secret == keys.secret(),
            evaluation == keys.evaluation(),
            with_pair == (scope is WithAssetPair),
            prices@.len() == i,
            sides@.len() == i,
            asset_a@.len() == (if with_pair { i } else { 0 }),
            asset_b@.len() == asset_a@.len(),
            all_fit(prices@, evaluation),
            all_fit(sides@, evaluation),
            all_fit(asset_a@, evaluation),
            all_fit(asset_b@, evaluation),
            forall|k: int|
                0 <= k < i ==> {
                    &&& word_inside(#[trigger] prices@[k], secret) == Some(batch.order@[k].price)
                    &&& flag_inside(sides@[k], secret) == Some(batch.order@[k].a_for_b)
                },
            with_pair ==> forall|k: int|
                0 <= k < i ==> {
                    &&& word_inside(#[trigger] asset_a@[k], secret) == Some(
                        batch.order@[k].asset_a,
                    )
                    &&& word_inside(asset_b@[k], secret) == Some(batch.order@[k].asset_b)
                },
        decreases batch.order@.len() - i,
    {
        let order = &batch.order[i];
        match keys.seal_word(order.price) {
            Some(ct) => prices.push(ct),
            None => {
                return Err(ProtocolError::Encoding { field: Field::Price, index: i });
            },
        }
        match keys.seal_flag(order.a_for_b) {
            Some(ct) => sides.push(ct),
            None => {
                return Err(ProtocolError::Encoding { field: Field::Side, index: i });
            },
        }
        if with_pair {
            match keys.seal_word(order.asset_a) {
                Some(ct) => asset_a.push(ct),
                None => {
                    return Err(ProtocolError::Encoding { field: Field::AssetA, index: i });
                },
            }
            match keys.seal_word(order.asset_b) {
                Some(ct) => asset_b.push(ct),
                None => {
                    return Err(ProtocolError::Encoding { field: Field::AssetB, index: i });
                },
            }
        }
        i = i + 1;
    }
    Ok(SealedBatch { prices, sides, asset_a, asset_b })
}

/// Encodes the evaluation key and a sealed batch as the request of a
/// round, each ciphertext on its own within the size bound. The first part
/// that the provider does not write fails the request, with its place;
/// where there is none the request is written, and it reads back, at the
/// counterparty, as the key and the ciphertexts that went in.
pub fn write_request(keys: &SessionKeys, sealed: &SealedBatch) -> (r: Result<
    RoundRequest,
    ProtocolError,
>)
    ensures
        request_encoded(keys.evaluation(), sealed@) == match r {
            Ok(request) => Ok::<RequestView, ProtocolError>(request@),
            Err(e) => Err(e),
        },
        r matches Ok(request) ==> {
            &&& key_on_wire(request.evaluation_key@) == Some(keys.evaluation())
            &&& request.batch() == Ok::<BatchView, ProtocolError>(sealed@)
        },
{
    let evaluation_key = match keys.evaluation_key_bytes() {
        Ok(bytes) => bytes,
        Err(e) => {
            return Err(e);
        },
    };
    let price_ciphertexts = match write_all(&sealed.prices, Field::Price) {
        Ok(payloads) => payloads,
        Err(e) => {
            return Err(e);
        },
    };
    let side_ciphertexts = match write_all(&sealed.sides, Field::Side) {
        Ok(payloads) => payloads,
        Err(e) => {
            return Err(e);
        },
    };
    let asset_a_ciphertexts = match write_all(&sealed.asset_a, Field::AssetA) {
        Ok(payloads) => payloads,
        Err(e) => {
            return Err(e);
        },
    };
    let asset_b_ciphertexts = match write_all(&sealed.asset_b, Field::AssetB) {
        Ok(payloads) => payloads,
        Err(e) => {
            return Err(e);
        },
    };
    proof {
        law_written_reads_back(price_ciphertexts@, sealed.prices@, Field::Price);
        law_written_reads_back(side_ciphertexts@, sealed.sides@, Field::Side);
        law_written_reads_back(asset_a_ciphertexts@, sealed.asset_a@, Field::AssetA);
        law_written_reads_back(asset_b_ciphertexts@, sealed.asset_b@, Field::AssetB);
    }
    let request = RoundRequest {
        evaluation_key,
        price_ciphertexts,
        side_ciphertexts,
        asset_a_ciphertexts,
        asset_b_ciphertexts,
    };
    proof {
        assert(request.batch() == Ok::<BatchView, ProtocolError>(sealed@));
    }
    Ok(request)
}

/// Whether a request, or the error in its place, is what encrypting
/// `orders` under `keys` and encoding the outcome gives: there is a batch of
/// ciphertexts that hold the fields of `orders` and have the shape of the
/// round's evaluation key, and `outcome` is what `write_request` returns
/// for it.
pub open spec fn encodes(
    outcome: Result<RequestView, ProtocolError>,
    keys: SessionKeys,
    scope: MatchScope,
    orders: Seq<Order>,
) -> bool {
    exists|sealed: BatchView|
        {
            &&& #[trigger] sealed.holds(keys.secret(), scope, orders)
            &&& sealed.fits(keys.evaluation())
            &&& outcome == request_encoded(keys.evaluation(), sealed)
        }
}

/// Builds the request of a round: the evaluation key, and the batch
/// encrypted field by field, each ciphertext encoded on its own within the
/// size bound. Encryption succeeds for every batch; the request fails only
/// where the provider does not write the key or a ciphertext, and then
/// with the place of the first that it does not write. What is returned
/// reads back, at the counterparty, as the round's evaluation key and as
/// ciphertexts that hold the fields of the batch and have the key's shape.
pub fn encode_orders(keys: &SessionKeys, batch: &Orders, scope: MatchScope) -> (r: Result<
    RoundRequest,
    ProtocolError,
>)
    ensures
        encodes(
            match r {
                Ok(request) => Ok(request@),
                Err(e) => Err(e),
            },
            *keys,
            scope,
            batch.order@,
        ),
        r matches Ok(request) ==> {
            &&& key_on_wire(request.evaluation_key@) == Some(keys.evaluation())
            &&& request.rows() == batch.order@.len()
            &&& request.holds(keys.secret(), scope, batch.order@)
            &&& request.fits(keys.evaluation())
        },
{
    let sealed = match seal_orders(keys, batch, scope) {
        Ok(sealed) => sealed,
        Err(e) => {
            return Err(e);
        },
    };
    let r = write_request(keys, &sealed);
    proof {
        assert(sealed@.holds(keys.secret(), scope, batch.order@));
    }
    r
}

} // verus!
