//! The boundary to the outside crates: `tfhe` for the homomorphic scheme and
//! its bounded serialization, `bincode` for evaluation keys, `rand` for
//! identifiers.
//!
//! Nothing in this file is proved. Each item says what the rest of the
//! library takes on trust from the crate it calls: that a ciphertext opens
//! to what was sealed, that a homomorphic operation yields a ciphertext of
//! the operation's result, and that what was written can be read back. The
//! scheme keeps these promises up to the failure probability of its
//! parameters.
//!
//! The provider does not check what it is given. Its calls are made here
//! only under parameters that it accepts and whose blocks hold one or two
//! bits, with evaluation keys that were held against such parameters, and
//! on ciphertexts that were held against the key.

use tfhe::conformance::ParameterSetConformant;
use tfhe::prelude::{FheDecrypt, FheEq, FheTryEncrypt};
use tfhe::shortint::parameters::PARAM_MESSAGE_1_CARRY_1_KS_PBS;
use tfhe::shortint::server_key::ShortintBootstrappingKey;
use tfhe::{ClientKey, Config, FheBool, ServerKey};
use vstd::prelude::*;

verus! {

/// `tfhe::FheBool`, an encrypted boolean.
#[verifier::external_type_specification]
#[verifier::external_body]
pub struct ExFheBool(FheBool);

/// `tfhe::ClientKey`, the secret key: it seals and opens.
#[verifier::external_type_specification]
#[verifier::external_body]
pub struct ExClientKey(ClientKey);

/// `tfhe::ServerKey`, the evaluation key: it computes on ciphertexts and
/// opens nothing.
#[verifier::external_type_specification]
#[verifier::external_body]
pub struct ExServerKey(ServerKey);

/// `tfhe::Config`, the scheme's parameters.
#[verifier::external_type_specification]
#[verifier::external_body]
pub struct ExConfig(Config);

/// `tfhe::Error`, which encryption may return.
#[verifier::external_type_specification]
#[verifier::external_body]
pub struct ExSealError(tfhe::Error);

/// `bincode::ErrorKind`, which serialization may return.
#[verifier::external_type_specification]
#[verifier::external_body]
pub struct ExWriteError(bincode::ErrorKind);

/// An encrypted 32-bit unsigned integer: a `tfhe::FheUint32`. The type is
/// generic over a marker that `tfhe` does not export, so it is held here.
#[verifier::external_body]
pub struct CipherU32 {
    inner: tfhe::FheUint32,
}

/// The number that `ct` holds for the owner of `secret`: `Some(v)` where
/// `ct` is an encryption of `v` under `secret`, fresh or computed, and
/// `None` where it is none.
pub uninterp spec fn word_inside(ct: CipherU32, secret: ClientKey) -> Option<u32>;

/// The boolean that `ct` holds for the owner of `secret`, as `word_inside`.
pub uninterp spec fn flag_inside(ct: FheBool, secret: ClientKey) -> Option<bool>;

/// Whether `evaluation` is the evaluation key that was generated for `secret`.
pub uninterp spec fn serves(evaluation: ServerKey, secret: ClientKey) -> bool;

/// Whether `config` holds parameters that the provider can work under:
/// parameters of the classic bootstrap, with no compression and no
/// dedicated public key, under which its key generation, its checks and
/// its operations run to their end. The provider offers no test for this;
/// its own parameter sets are such.
pub uninterp spec fn accepted(config: Config) -> bool;

/// The four sizes that the parameters of `config` give a bootstrapping key:
/// the dimension it takes, the size and the polynomial size it gives, and
/// the number of its levels.
pub uninterp spec fn config_frame(config: Config) -> (usize, usize, usize, usize);

/// The same four sizes as `evaluation` holds them itself, where its
/// bootstrapping key is a classic one; `None` where it is of another kind.
pub uninterp spec fn key_frame(evaluation: ServerKey) -> Option<(usize, usize, usize, usize)>;

/// Whether `evaluation` holds the sizes that `config` gives. On a key with
/// other sizes the provider's check is not called: it multiplies the sizes
/// that it finds before it compares them.
pub open spec fn framed(evaluation: ServerKey, config: Config) -> bool {
    key_frame(evaluation) == Some(config_frame(config))
}

/// The message modulus of `config`: how many values one block of a
/// ciphertext tells apart.
pub uninterp spec fn block_modulus(config: Config) -> usize;

/// The message modulus under which `secret` was generated.
pub uninterp spec fn secret_modulus(secret: ClientKey) -> usize;

/// Whether `evaluation` is a key as the parameters of `config` describe
/// it, in every part: what `is_conformant` returns.
pub uninterp spec fn key_sound(evaluation: ServerKey, config: Config) -> bool;

/// Whether blocks of this message modulus can carry a 32-bit number: the
/// modulus is 2 or 4, one or two bits to a block. The provider's key
/// generation takes no other modulus, and a block of three bits would
/// leave two bits of a number over, which the provider cuts off.
pub open spec fn holds_32_bits(modulus: usize) -> bool {
    modulus == 2 || modulus == 4
}

/// Whether `evaluation` can be computed with: it was held against accepted
/// parameters whose blocks hold 32 bits.
pub open spec fn usable(evaluation: ServerKey) -> bool {
    exists|config: Config|
        accepted(config) && holds_32_bits(block_modulus(config)) && #[trigger] key_sound(
            evaluation,
            config,
        )
}

/// Whether `ct` has the shape that the parameters of `evaluation` ask of a
/// 32-bit ciphertext: what `is_conformant` returns.
pub uninterp spec fn word_fits(ct: CipherU32, evaluation: ServerKey) -> bool;

/// Whether `ct` has the shape that the parameters of `evaluation` ask of an
/// encrypted boolean: what `is_conformant` returns.
pub uninterp spec fn flag_fits(ct: FheBool, evaluation: ServerKey) -> bool;

/// What `safe_deserialize` with the size limit `limit` makes of `bytes` when
/// a 32-bit ciphertext is asked for; `None` where it refuses them.
pub uninterp spec fn word_on_wire(bytes: Seq<u8>, limit: u64) -> Option<CipherU32>;

/// What `safe_deserialize` with the size limit `limit` makes of `bytes` when
/// an encrypted boolean is asked for; `None` where it refuses them.
pub uninterp spec fn flag_on_wire(bytes: Seq<u8>, limit: u64) -> Option<FheBool>;

/// What `bincode::deserialize` makes of `bytes` when an evaluation key is
/// asked for, where it returns one.
pub uninterp spec fn key_on_wire(bytes: Seq<u8>) -> Option<ServerKey>;

/// What `safe_serialize` with the size limit `limit` writes for a 32-bit
/// ciphertext; `None` where it writes nothing because the limit is too
/// small.
pub uninterp spec fn word_written(ct: CipherU32, limit: u64) -> Option<Seq<u8>>;

/// What `safe_serialize` with the size limit `limit` writes for an encrypted
/// boolean; `None` where it writes nothing because the limit is too small.
pub uninterp spec fn flag_written(ct: FheBool, limit: u64) -> Option<Seq<u8>>;

/// What `bincode::serialize` writes for an evaluation key; `None` where it
/// fails.
pub uninterp spec fn key_written(evaluation: ServerKey) -> Option<Seq<u8>>;

/// Calls `rand::random::<u32>()`. Nothing is claimed of the number drawn.
#[verifier::external_body]
pub(crate) fn random_u32() -> u32 {
    rand::random::<u32>()
}

/// Calls `tfhe::generate_keys`, under parameters that the provider accepts
/// and whose message modulus is 2 or 4: on another modulus the call stops.
/// The evaluation key it returns is the one derived from the secret key it
/// returns; it has the sizes that `config` gives and is a key as `config`
/// describes it, and the secret key has the message modulus of `config`.
#[verifier::external_body]
pub(crate) fn fresh_keys(config: Config) -> (keys: (ClientKey, ServerKey))
    requires
        accepted(config),
        holds_32_bits(block_modulus(config)),
    ensures
        serves(keys.1, keys.0),
        framed(keys.1, config),
        key_sound(keys.1, config),
        secret_modulus(keys.0) == block_modulus(config),
{
    tfhe::generate_keys(config)
}

/// Reads the message modulus of `config` from the parameters that
/// `ServerKey::is_conformant` takes, which `config` converts into.
#[verifier::external_body]
pub(crate) fn config_block_modulus(config: Config) -> (r: usize)
    ensures
        r == block_modulus(config),
{
    let parameters: <ServerKey as ParameterSetConformant>::ParameterSet = config.into();
    parameters.sk_param.message_modulus().0
}

/// Reads, from the parameters that `config` converts into, the four sizes
/// that they give a bootstrapping key, as the provider's check takes them:
/// `lwe_dimension`, `glwe_dimension().to_glwe_size()`, `polynomial_size`
/// and `pbs_level`.
#[verifier::external_body]
pub(crate) fn read_config_frame(config: Config) -> (r: (usize, usize, usize, usize))
    requires
        accepted(config),
    ensures
        r == config_frame(config),
{
    let parameters: <ServerKey as ParameterSetConformant>::ParameterSet = config.into();
    let block = parameters.sk_param;
    let glwe_size = block.glwe_dimension().to_glwe_size().0;
    (block.lwe_dimension().0, glwe_size, block.polynomial_size().0, block.pbs_level().0)
}

/// Reads the four sizes of the bootstrapping key of `evaluation` through
/// `into_raw_parts` and the key's accessors, which return what the key
/// holds and compute nothing.
#[verifier::external_body]
pub(crate) fn read_key_frame(evaluation: &ServerKey) -> (r: Option<(usize, usize, usize, usize)>)
    ensures
        r == key_frame(*evaluation),
{
    let (key, _, _, _, _) = evaluation.clone().into_raw_parts();
    let blocks: &tfhe::shortint::ServerKey = key.as_ref();
    match &blocks.bootstrapping_key {
        ShortintBootstrappingKey::Classic(k) => Some(
            (
                k.input_lwe_dimension().0,
                k.glwe_size().0,
                k.polynomial_size().0,
                k.decomposition_level_count().0,
            ),
        ),
        ShortintBootstrappingKey::MultiBit { .. } => None,
    }
}

/// Calls `ServerKey::is_conformant` with the parameters of `config`, which
/// the provider accepts, on a key that holds the sizes that `config` gives:
/// what the check multiplies is then what key generation under `config`
/// multiplies.
#[verifier::external_body]
pub(crate) fn key_conforms(evaluation: &ServerKey, config: Config) -> (r: bool)
    requires
        accepted(config),
        framed(*evaluation, config),
    ensures
        r == key_sound(*evaluation, config),
{
    evaluation.is_conformant(&config.into())
}

/// Calls `FheUint32::try_encrypt` with a key whose blocks hold 32 bits, so
/// that no bit of `value` is cut off. The call returns `Ok` for every
/// `value`: its source ends in `Ok` with nothing before that can fail. The
/// ciphertext holds `value` for the owner of `secret`, and it has the shape
/// of the evaluation key that serves `secret`.
#[verifier::external_body]
pub(crate) fn seal_word(value: u32, secret: &ClientKey) -> (r: Result<CipherU32, tfhe::Error>)
    requires
        holds_32_bits(secret_modulus(*secret)),
    ensures
        r is Ok,
        r matches Ok(ct) ==> word_inside(ct, *secret) == Some(value),
        r matches Ok(ct) ==> forall|evaluation: ServerKey|
            serves(evaluation, *secret) ==> #[trigger] word_fits(ct, evaluation),
{
    tfhe::FheUint32::try_encrypt(value, secret).map(|inner| CipherU32 { inner })
}

/// Calls `FheBool::try_encrypt`. The call returns `Ok` for both booleans:
/// its source ends in `Ok` with nothing before that can fail. The
/// ciphertext holds `value` for the owner of `secret`, and it has the shape
/// of the evaluation key that serves `secret`.
#[verifier::external_body]
pub(crate) fn seal_flag(value: bool, secret: &ClientKey) -> (r: Result<FheBool, tfhe::Error>)
    ensures
        r is Ok,
        r matches Ok(ct) ==> flag_inside(ct, *secret) == Some(value),
        r matches Ok(ct) ==> forall|evaluation: ServerKey|
            serves(evaluation, *secret) ==> #[trigger] flag_fits(ct, evaluation),
{
    FheBool::try_encrypt(value, secret)
}

/// Calls `FheBool::decrypt`, which needs a ciphertext of the shape that the
/// secret key's parameters give. Where `ct` holds a boolean for the owner of
/// `secret`, that boolean is returned.
#[verifier::external_body]
pub(crate) fn open_flag(ct: &FheBool, secret: &ClientKey) -> (r: bool)
    requires
        exists|evaluation: ServerKey| serves(evaluation, *secret) && flag_fits(*ct, evaluation),
    ensures
        flag_inside(*ct, *secret) matches Some(v) ==> r == v,
{
    ct.decrypt(secret)
}

/// Calls `is_conformant` on a 32-bit ciphertext, with the parameters of
/// `evaluation`, a key that can be computed with.
#[verifier::external_body]
pub(crate) fn word_conforms(ct: &CipherU32, evaluation: &ServerKey) -> (r: bool)
    requires
        usable(*evaluation),
    ensures
        r == word_fits(*ct, *evaluation),
{
    ct.inner.is_conformant(&evaluation.into())
}

/// Calls `is_conformant` on an encrypted boolean, with the parameters of
/// `evaluation`, a key that can be computed with.
#[verifier::external_body]
pub(crate) fn flag_conforms(ct: &FheBool, evaluation: &ServerKey) -> (r: bool)
    requires
        usable(*evaluation),
    ensures
        r == flag_fits(*ct, *evaluation),
{
    ct.is_conformant(&evaluation.into())
}

/// Installs `evaluation` as the thread's active key with `set_server_key`
/// and calls `FheUint32::eq` with a plaintext operand. The result has the
/// shape of `evaluation`; for the owner of the secret key that `evaluation`
/// serves it holds whether the number in `ct` equals `plain`.
#[verifier::external_body]
pub(crate) fn word_equals(evaluation: &ServerKey, ct: &CipherU32, plain: u32) -> (r: FheBool)
    requires
        usable(*evaluation),
        word_fits(*ct, *evaluation),
    ensures
        flag_fits(r, *evaluation),
        forall|secret: ClientKey|
            serves(*evaluation, secret) && word_inside(*ct, secret) is Some ==> #[trigger] flag_inside(
                r,
                secret,
            ) == Some(word_inside(*ct, secret)->0 == plain),
{
    tfhe::set_server_key(evaluation.clone());
    ct.inner.eq(plain)
}

/// Installs `evaluation` as the thread's active key with `set_server_key`
/// and calls `FheBool::eq` with a plaintext operand. The result has the
/// shape of `evaluation`; for the owner of the secret key that `evaluation`
/// serves it holds whether the boolean in `ct` equals `plain`.
#[verifier::external_body]
pub(crate) fn flag_equals(evaluation: &ServerKey, ct: &FheBool, plain: bool) -> (r: FheBool)
    requires
        usable(*evaluation),
        flag_fits(*ct, *evaluation),
    ensures
        flag_fits(r, *evaluation),
        forall|secret: ClientKey|
            serves(*evaluation, secret) && flag_inside(*ct, secret) is Some ==> #[trigger] flag_inside(
                r,
                secret,
            ) == Some(flag_inside(*ct, secret)->0 == plain),
{
    tfhe::set_server_key(evaluation.clone());
    ct.eq(plain)
}

/// Installs `evaluation` as the thread's active key with `set_server_key`
/// and calls `&` on two encrypted booleans. The result has the shape of
/// `evaluation`; for the owner of the secret key that `evaluation` serves it
/// holds the conjunction of what `a` and `b` hold.
#[verifier::external_body]
pub(crate) fn flag_and(evaluation: &ServerKey, a: &FheBool, b: &FheBool) -> (r: FheBool)
    requires
        usable(*evaluation),
        flag_fits(*a, *evaluation),
        flag_fits(*b, *evaluation),
    ensures
        flag_fits(r, *evaluation),
        forall|secret: ClientKey|
            serves(*evaluation, secret) && flag_inside(*a, secret) is Some && flag_inside(
                *b,
                secret,
            ) is Some ==> #[trigger] flag_inside(r, secret) == Some(
                flag_inside(*a, secret)->0 && flag_inside(*b, secret)->0,
            ),
{
    tfhe::set_server_key(evaluation.clone());
    a & b
}

/// Calls `safe_serialize` on a 32-bit ciphertext, with the size limit
/// `limit`. What it writes depends on the ciphertext and the limit alone.
/// It starts with the provider's header, so it is not empty; it is no
/// longer than `limit`, and `safe_deserialize` with the same limit reads the
/// ciphertext back from it.
#[verifier::external_body]
pub(crate) fn write_word(ct: &CipherU32, limit: u64) -> (r: Result<Vec<u8>, Box<bincode::ErrorKind>>)
    ensures
        r matches Ok(bytes) ==> word_written(*ct, limit) == Some(bytes@),
        r is Err ==> word_written(*ct, limit) is None,
        r matches Ok(bytes) ==> 0 < bytes@.len() <= limit,
        r matches Ok(bytes) ==> word_on_wire(bytes@, limit) == Some(*ct),
{
    let mut bytes = Vec::new();
    tfhe::safe_serialization::safe_serialize(&ct.inner, &mut bytes, limit).map(|_| bytes)
}

/// Calls `safe_serialize` on an encrypted boolean, with the size limit
/// `limit`. What it writes depends on the ciphertext and the limit alone.
/// It starts with the provider's header, so it is not empty; it is no
/// longer than `limit`, and `safe_deserialize` with the same limit reads the
/// ciphertext back from it.
#[verifier::external_body]
pub(crate) fn write_flag(ct: &FheBool, limit: u64) -> (r: Result<Vec<u8>, Box<bincode::ErrorKind>>)
    ensures
        r matches Ok(bytes) ==> flag_written(*ct, limit) == Some(bytes@),
        r is Err ==> flag_written(*ct, limit) is None,
        r matches Ok(bytes) ==> 0 < bytes@.len() <= limit,
        r matches Ok(bytes) ==> flag_on_wire(bytes@, limit) == Some(*ct),
{
    let mut bytes = Vec::new();
    tfhe::safe_serialization::safe_serialize(ct, &mut bytes, limit).map(|_| bytes)
}

/// Calls `safe_deserialize` for a 32-bit ciphertext, with the size limit
/// `limit`. Under a limit that the machine cannot allocate the call may
/// fail, so the contract stops at 1 MiB.
#[verifier::external_body]
pub(crate) fn read_word(data: &[u8], limit: u64) -> (r: Result<CipherU32, String>)
    requires
        limit <= 1048576,
    ensures
        r matches Ok(ct) ==> word_on_wire(data@, limit) == Some(ct),
        r is Err ==> word_on_wire(data@, limit) is None,
{
    tfhe::safe_serialization::safe_deserialize::<tfhe::FheUint32>(data, limit).map(
        |inner| CipherU32 { inner },
    )
}

/// Calls `safe_deserialize` for an encrypted boolean, with the size limit
/// `limit`. Under a limit that the machine cannot allocate the call may
/// fail, so the contract stops at 1 MiB.
#[verifier::external_body]
pub(crate) fn read_flag(data: &[u8], limit: u64) -> (r: Result<FheBool, String>)
    requires
        limit <= 1048576,
    ensures
        r matches Ok(ct) ==> flag_on_wire(data@, limit) == Some(ct),
        r is Err ==> flag_on_wire(data@, limit) is None,
{
    tfhe::safe_serialization::safe_deserialize::<FheBool>(data, limit)
}

/// Calls `bincode::serialize` on an evaluation key. What it writes depends
/// on the key alone, and `bincode::deserialize` reads the key back from it.
#[verifier::external_body]
pub(crate) fn write_key(evaluation: &ServerKey) -> (r: Result<Vec<u8>, Box<bincode::ErrorKind>>)
    ensures
        r matches Ok(bytes) ==> key_written(*evaluation) == Some(bytes@),
        r is Err ==> key_written(*evaluation) is None,
        r matches Ok(bytes) ==> key_on_wire(bytes@) == Some(*evaluation),
{
    bincode::serialize(evaluation)
}

/// Calls `bincode::deserialize` for an evaluation key, on bytes that it
/// reads a key from: those that `bincode::serialize` wrote for one. On
/// other bytes the provider's readers may stop the program.
#[verifier::external_body]
pub(crate) fn read_key(data: &[u8]) -> (r: Result<ServerKey, Box<bincode::ErrorKind>>)
    requires
        key_on_wire(data@) is Some,
    ensures
        r is Ok,
        r matches Ok(evaluation) ==> key_on_wire(data@) == Some(evaluation),
{
    bincode::deserialize::<ServerKey>(data)
}

/// Calls `ConfigBuilder::with_custom_parameters` on the provider's own
/// parameter set `PARAM_MESSAGE_1_CARRY_1_KS_PBS`, which it accepts and
/// whose message modulus is 2, one bit to a block.
#[verifier::external_body]
pub(crate) fn one_bit_config() -> (r: Config)
    ensures
        accepted(r),
        block_modulus(r) == 2,
{
    tfhe::ConfigBuilder::with_custom_parameters(PARAM_MESSAGE_1_CARRY_1_KS_PBS).build()
}

/// Calls `ConfigBuilder::default().build()`: the scheme's default
/// parameters, which the provider accepts and whose message modulus is 4,
/// two bits to a block.
#[verifier::external_body]
pub(crate) fn default_config() -> (r: Config)
    ensures
        accepted(r),
        block_modulus(r) == 4,
{
    tfhe::ConfigBuilder::default().build()
}

} // verus!
