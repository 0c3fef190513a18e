//! The parameters and the keys of a matching round.
//!
//! A key pair is generated once per round. Its evaluation key goes to the
//! counterparty; its secret key stays inside `SessionKeys`, which offers what
//! the key is for and no way to take it out. An evaluation key that came
//! from a counterparty is computed with only after it was held against the
//! agreed parameters.

use crate::common::{Field, ProtocolError};
use crate::provider::{
    accepted, block_modulus, config_block_modulus, default_config, flag_conforms, flag_fits,
    flag_inside, framed, fresh_keys, holds_32_bits, key_conforms, key_on_wire,
    key_sound, key_written, one_bit_config, open_flag, read_config_frame, read_key,
    read_key_frame, seal_flag, seal_word, secret_modulus, serves, usable, word_fits, word_inside,
    write_key, CipherU32,
};
use tfhe::{ClientKey, Config, FheBool, ServerKey};
use vstd::prelude::*;

verus! {

/// The scheme's parameters for a round, which both parties agree on. They
/// are parameters that the provider accepts, with one or two bits to a
/// block, so that keys can be generated and no price is cut short.
pub struct Parameters {
    config: Config,
}

impl Parameters {
    /// The parameters are accepted and their blocks hold 32 bits.
    #[verifier::type_invariant]
    spec fn fit_for_words(self) -> bool {
        accepted(self.config) && holds_32_bits(block_modulus(self.config))
    }

    /// The provider's form of the parameters.
    pub closed spec fn config(self) -> Config {
        self.config
    }

    /// The provider's default parameters: two bits to a block.
    pub fn standard() -> (parameters: Parameters)
        ensures
            accepted(parameters.config()),
            block_modulus(parameters.config()) == 4,
    {
        Parameters { config: default_config() }
    }

    /// The provider's parameters with one bit to a block.
    pub fn one_bit_blocks() -> (parameters: Parameters)
        ensures
            accepted(parameters.config()),
            block_modulus(parameters.config()) == 2,
    {
        Parameters { config: one_bit_config() }
    }

    /// Parameters of the caller's choice, which must be ones that the
    /// provider accepts. They are refused where a block holds more than
    /// two bits: the provider generates no keys for such blocks, and with
    /// three bits to a block it would cut prices down to 30 bits.
    pub fn custom(config: Config) -> (r: Option<Parameters>)
        requires
            accepted(config),
        ensures
            r is Some == holds_32_bits(block_modulus(config)),
            r matches Some(parameters) ==> parameters.config() == config,
    {
        let modulus = config_block_modulus(config);
        if modulus == 2 || modulus == 4 {
            Some(Parameters { config })
        } else {
            None
        }
    }
}

/// An evaluation key that was held against parameters of a round and is a
/// key as they describe it.
pub struct EvaluationKey {
    key: ServerKey,
}

impl EvaluationKey {
    /// The key can be computed with.
    #[verifier::type_invariant]
    spec fn held(self) -> bool {
        usable(self.key)
    }

    /// The provider's form of the key.
    pub closed spec fn key(self) -> ServerKey {
        self.key
    }

    /// Holds an evaluation key against the agreed parameters. A key is
    /// refused where it does not hold the sizes that the parameters give,
    /// and where it is not, in every part, as the parameters describe it.
    /// The sizes are compared first, and the provider's check is made only
    /// on a key that holds them.
    pub fn check(key: ServerKey, parameters: &Parameters) -> (r: Option<EvaluationKey>)
        ensures
            r is Some == (framed(key, parameters.config()) && key_sound(
                key,
                parameters.config(),
            )),
            r matches Some(evaluation) ==> evaluation.key() == key,
    {
        proof {
            use_type_invariant(parameters);
        }
        let agreed = read_config_frame(parameters.config);
        let same_sizes = match read_key_frame(&key) {
            Some(found) => found.0 == agreed.0 && found.1 == agreed.1 && found.2 == agreed.2
                && found.3 == agreed.3,
            None => false,
        };
        if same_sizes && key_conforms(&key, parameters.config) {
            Some(EvaluationKey { key })
        } else {
            None
        }
    }

    /// The provider's form of the key, which can be computed with.
    pub fn provider_key(&self) -> (key: &ServerKey)
        ensures
            *key == self.key(),
            usable(*key),
    {
        proof {
            use_type_invariant(self);
        }
        &self.key
    }
}

/// A secret key and the evaluation key that was generated for it.
pub struct SessionKeys {
    secret: ClientKey,
    evaluation: EvaluationKey,
}

impl SessionKeys {
    /// The evaluation key is the one that was generated for the secret key,
    /// whose blocks hold 32 bits.
    #[verifier::type_invariant]
    spec fn paired(self) -> bool {
        serves(self.evaluation.key(), self.secret) && holds_32_bits(secret_modulus(self.secret))
    }

    /// The secret key, for contracts. No executable function returns it.
    pub closed spec fn secret(self) -> ClientKey {
        self.secret
    }

    /// The evaluation key.
    pub closed spec fn evaluation(self) -> ServerKey {
        self.evaluation.key()
    }

    /// Generates the key pair of a round under the given parameters.
    pub fn generate(parameters: &Parameters) -> (keys: SessionKeys)
        ensures
            serves(keys.evaluation(), keys.secret()),
            framed(keys.evaluation(), parameters.config()),
            key_sound(keys.evaluation(), parameters.config()),
    {
        proof {
            use_type_invariant(parameters);
        }
        let (secret, key) = fresh_keys(parameters.config);
        SessionKeys { secret, evaluation: EvaluationKey { key } }
    }

    /// Generates the key pair of a round under the provider's default
    /// parameters.
    pub fn generate_default() -> (keys: SessionKeys)
        ensures
            serves(keys.evaluation(), keys.secret()),
    {
        let parameters = Parameters::standard();
        SessionKeys::generate(&parameters)
    }

    /// The evaluation key, which serves the secret key of this pair.
    pub fn evaluation_key(&self) -> (evaluation: &EvaluationKey)
        ensures
            evaluation.key() == self.evaluation(),
            serves(evaluation.key(), self.secret()),
    {
        proof {
            use_type_invariant(self);
        }
        &self.evaluation
    }

    /// Encrypts a number under this pair's secret key. Every `u32` is in
    /// the range of the scheme's 32-bit type, so a ciphertext is returned
    /// for every `value`. It holds `value` for this pair's secret key and
    /// has the shape of this pair's evaluation key.
    pub fn seal_word(&self, value: u32) -> (r: Option<CipherU32>)
        ensures
            r is Some,
            r matches Some(ct) ==> word_inside(ct, self.secret()) == Some(value),
            r matches Some(ct) ==> word_fits(ct, self.evaluation()),
    {
        proof {
            use_type_invariant(self);
        }
        match seal_word(value, &self.secret) {
            Ok(ct) => Some(ct),
            Err(_) => None,
        }
    }

    /// Encrypts a boolean under this pair's secret key. A ciphertext is
    /// returned for both booleans. It holds `value` for this pair's secret
    /// key and has the shape of this pair's evaluation key.
    pub fn seal_flag(&self, value: bool) -> (r: Option<FheBool>)
        ensures
            r is Some,
            r matches Some(ct) ==> flag_inside(ct, self.secret()) == Some(value),
            r matches Some(ct) ==> flag_fits(ct, self.evaluation()),
    {
        proof {
            use_type_invariant(self);
        }
        match seal_flag(value, &self.secret) {
            Ok(ct) => Some(ct),
            Err(_) => None,
        }
    }

    /// Opens an encrypted boolean. A ciphertext that does not have the shape
    /// of this pair's evaluation key is not opened; one that has is, and
    /// where it holds a boolean for this pair's secret key, that boolean is
    /// returned.
    pub fn open_flag(&self, ct: &FheBool) -> (r: Option<bool>)
        ensures
            r is Some <==> flag_fits(*ct, self.evaluation()),
            r matches Some(opened) ==> (flag_inside(*ct, self.secret()) matches Some(held) ==> opened
                == held),
    {
        if flag_conforms(ct, self.evaluation.provider_key()) {
            Some(self.open_fitting(ct))
        } else {
            None
        }
    }

    /// Opens an encrypted boolean that is known to have the shape of this
    /// pair's evaluation key.
    pub fn open_fitting(&self, ct: &FheBool) -> (opened: bool)
        requires
            flag_fits(*ct, self.evaluation()),
        ensures
            flag_inside(*ct, self.secret()) matches Some(held) ==> opened == held,
    {
        proof {
            use_type_invariant(self);
        }
        open_flag(ct, &self.secret)
    }

    /// Writes the evaluation key for transmission. What is written depends
    /// on the key alone, and the key reads back from it.
    pub fn evaluation_key_bytes(&self) -> (r: Result<Vec<u8>, ProtocolError>)
        ensures
            key_encoded(self.evaluation()) == match r {
                Ok(bytes) => Ok::<Seq<u8>, ProtocolError>(bytes@),
                Err(e) => Err(e),
            },
            r matches Ok(bytes) ==> key_on_wire(bytes@) == Some(self.evaluation()),
    {
        match write_key(self.evaluation.provider_key()) {
            Ok(bytes) => Ok(bytes),
            Err(_) => Err(ProtocolError::Encoding { field: Field::EvaluationKey, index: 0 }),
        }
    }
}

/// What `evaluation_key_bytes` returns for a key, given what the provider
/// writes for it.
pub open spec fn key_encoded(evaluation: ServerKey) -> Result<Seq<u8>, ProtocolError> {
    match key_written(evaluation) {
        Some(bytes) => Ok(bytes),
        None => Err(ProtocolError::Encoding { field: Field::EvaluationKey, index: 0 }),
    }
}

/// Reads an evaluation key back from bytes that `evaluation_key_bytes`
/// wrote. Bytes from a counterparty are not read here: the provider's
/// reader may stop the program on bytes that it did not write.
pub fn read_written_key(data: &[u8]) -> (r: Option<ServerKey>)
    requires
        key_on_wire(data@) is Some,
    ensures
        r == key_on_wire(data@),
{
    match read_key(data) {
        Ok(key) => Some(key),
        Err(_) => None,
    }
}

} // verus!
