use fhe_darkpool_poc::common::{
    safe_deserialize_item, safe_serialize_item, CodecError, Field, Order, Orders, ProtocolError,
    RoundTerms, MAX_PAYLOAD_BYTES,
};
use fhe_darkpool_poc::evaluator::{evaluate, find_misfit, SealedBatch};
use fhe_darkpool_poc::matching::MatchScope;
use fhe_darkpool_poc::provider::CipherU32;
use fhe_darkpool_poc::round::answer_request;
use fhe_darkpool_poc::session::{read_written_key, EvaluationKey, Parameters, SessionKeys};
use fhe_darkpool_poc::transport::{place, read_all, write_all, RoundRequest, RoundResponse};
use tfhe::FheBool;
use tfhe::shortint::parameters::{
    DecompositionBaseLog, DecompositionLevelCount, DynamicDistribution, GlweDimension,
    LweDimension, PolynomialSize, StandardDev,
};
use tfhe::shortint::{
    CarryModulus, CiphertextModulus, ClassicPBSParameters, EncryptionKeyChoice, MaxNoiseLevel,
    MessageModulus,
};

/// Parameters far too small to be secure, so that a round runs in
/// milliseconds. The scheme computes with them as with any others.
fn toy_config() -> tfhe::Config {
    toy_config_of(256)
}

fn toy_config_of(polynomial_size: usize) -> tfhe::Config {
    let parameters = ClassicPBSParameters {
        lwe_dimension: LweDimension(1),
        glwe_dimension: GlweDimension(1),
        polynomial_size: PolynomialSize(polynomial_size),
        lwe_noise_distribution: DynamicDistribution::new_gaussian_from_std_dev(StandardDev(
            0.000007069849454709433,
        )),
        glwe_noise_distribution: DynamicDistribution::new_gaussian_from_std_dev(StandardDev(
            0.00000000000000029403601535432533,
        )),
        pbs_base_log: DecompositionBaseLog(23),
        pbs_level: DecompositionLevelCount(1),
        ks_level: DecompositionLevelCount(5),
        ks_base_log: DecompositionBaseLog(3),
        message_modulus: MessageModulus(4),
        carry_modulus: CarryModulus(4),
        max_noise_level: MaxNoiseLevel::new(5),
        log2_p_fail: -40.,
        ciphertext_modulus: CiphertextModulus::new_native(),
        encryption_key_choice: EncryptionKeyChoice::Big,
    };
    tfhe::ConfigBuilder::with_custom_parameters(parameters).build()
}

fn toy() -> Parameters {
    toy_of(256)
}

fn toy_of(polynomial_size: usize) -> Parameters {
    Parameters::custom(toy_config_of(polynomial_size)).unwrap()
}

/// What the party that answers does at its edge: reads the evaluation key
/// of the request and holds it against the agreed parameters.
#[allow(dead_code)]
fn received_key(request: &RoundRequest, parameters: &Parameters) -> Option<EvaluationKey> {
    let key: tfhe::ServerKey = bincode::deserialize(&request.evaluation_key).ok()?;
    EvaluationKey::check(key, parameters)
}

#[allow(dead_code)]
fn answer(
    request: &RoundRequest,
    book: &Orders,
    terms: &RoundTerms,
) -> Result<RoundResponse, ProtocolError> {
    answer_under(&toy(), request, book, terms)
}

#[allow(dead_code)]
fn answer_under(
    parameters: &Parameters,
    request: &RoundRequest,
    book: &Orders,
    terms: &RoundTerms,
) -> Result<RoundResponse, ProtocolError> {
    let evaluation = received_key(request, parameters).expect("a key of the agreed parameters");
    answer_request(&evaluation, request, book, terms)
}

const TERMS: RoundTerms = RoundTerms { scope: MatchScope::PriceAndSide, max_batch: 16 };

fn one_order(price: u32, a_for_b: bool) -> Orders {
    Orders { order: vec![Order { id: 1, asset_a: 1, asset_b: 2, price, a_for_b }] }
}

/// Opens the one cell that comparing (`word`, `flag`) with `against` gives.
fn compare_one(keys: &SessionKeys, word: CipherU32, flag: FheBool, against: &Orders) -> bool {
    let sealed = SealedBatch { prices: vec![word], sides: vec![flag], asset_a: vec![], asset_b: vec![] };
    let cells = evaluate(keys.evaluation_key(), &sealed, against, &TERMS).unwrap();
    assert_eq!(cells.len(), 1);
    keys.open_flag(&cells[0]).unwrap()
}

#[test]
fn an_encrypted_boolean_reads_back_as_written() {
    let keys = SessionKeys::generate(&toy());
    for value in [true, false] {
        let sealed = keys.seal_flag(value).unwrap();
        let bytes = safe_serialize_item(&sealed).unwrap();
        assert!(!bytes.is_empty() && bytes.len() <= MAX_PAYLOAD_BYTES);
        let back: FheBool = safe_deserialize_item(&bytes).unwrap();
        assert_eq!(keys.open_flag(&back), Some(value));
        assert_eq!(keys.open_flag(&sealed), Some(value));
    }
}

#[test]
fn an_encrypted_number_reads_back_as_written() {
    let keys = SessionKeys::generate(&toy());
    let sealed = keys.seal_word(123456789).unwrap();
    let bytes = safe_serialize_item(&sealed).unwrap();
    assert!(!bytes.is_empty() && bytes.len() <= MAX_PAYLOAD_BYTES);
    let back: CipherU32 = safe_deserialize_item(&bytes).unwrap();
    let again: CipherU32 = safe_deserialize_item(&bytes).unwrap();
    assert!(compare_one(&keys, back, keys.seal_flag(true).unwrap(), &one_order(123456789, false)));
    assert!(!compare_one(&keys, again, keys.seal_flag(true).unwrap(), &one_order(123456788, false)));
}

#[test]
fn an_evaluation_key_reads_back_as_written() {
    let keys = SessionKeys::generate(&toy());
    let bytes = keys.evaluation_key_bytes().unwrap();
    let key = read_written_key(&bytes).unwrap();
    assert_eq!(keys.evaluation_key_bytes().unwrap(), bytes);
    let evaluation = EvaluationKey::check(key, &toy()).unwrap();
    let sealed = SealedBatch {
        prices: vec![keys.seal_word(9).unwrap()],
        sides: vec![keys.seal_flag(false).unwrap()],
        asset_a: vec![],
        asset_b: vec![],
    };
    let cells = evaluate(&evaluation, &sealed, &one_order(9, true), &TERMS).unwrap();
    assert_eq!(keys.open_flag(&cells[0]), Some(true));
    let cells = evaluate(&evaluation, &sealed, &one_order(9, false), &TERMS).unwrap();
    assert_eq!(keys.open_flag(&cells[0]), Some(false));
}

#[test]
fn a_payload_over_the_bound_is_refused_unread() {
    let too_long = vec![0u8; MAX_PAYLOAD_BYTES + 1];
    assert_eq!(safe_deserialize_item::<FheBool>(&too_long).err(), Some(CodecError::PayloadTooLarge));
    assert_eq!(
        safe_deserialize_item::<CipherU32>(&too_long).err(),
        Some(CodecError::PayloadTooLarge)
    );
}

#[test]
fn a_valid_payload_padded_over_the_bound_is_refused_not_cut() {
    let keys = SessionKeys::generate(&toy());
    let mut bytes = safe_serialize_item(&keys.seal_flag(true).unwrap()).unwrap();
    let padded_within = {
        let mut padded = bytes.clone();
        padded.resize(MAX_PAYLOAD_BYTES, 0);
        padded
    };
    assert!(safe_deserialize_item::<FheBool>(&padded_within).is_ok());
    bytes.resize(MAX_PAYLOAD_BYTES + 1, 0);
    assert_eq!(safe_deserialize_item::<FheBool>(&bytes).err(), Some(CodecError::PayloadTooLarge));
}

#[test]
fn a_payload_at_the_bound_is_read_and_found_malformed() {
    let at_the_bound = vec![0u8; MAX_PAYLOAD_BYTES];
    assert_eq!(safe_deserialize_item::<FheBool>(&at_the_bound).err(), Some(CodecError::Malformed));
}

#[test]
fn malformed_payloads_are_refused() {
    assert_eq!(safe_deserialize_item::<FheBool>(&[]).err(), Some(CodecError::Malformed));
    assert_eq!(safe_deserialize_item::<CipherU32>(&[]).err(), Some(CodecError::Malformed));
    assert_eq!(safe_deserialize_item::<FheBool>(&[1, 2, 3, 4, 5]).err(), Some(CodecError::Malformed));
    let keys = SessionKeys::generate(&toy());
    let flag = safe_serialize_item(&keys.seal_flag(true).unwrap()).unwrap();
    let word = safe_serialize_item(&keys.seal_word(1).unwrap()).unwrap();
    assert_eq!(safe_deserialize_item::<CipherU32>(&flag).err(), Some(CodecError::Malformed));
    assert_eq!(safe_deserialize_item::<FheBool>(&word).err(), Some(CodecError::Malformed));
    let cut = &word[..word.len() - 1];
    assert_eq!(safe_deserialize_item::<CipherU32>(cut).err(), Some(CodecError::Malformed));
}

#[test]
fn a_ciphertext_too_large_for_the_bound_is_an_error_not_a_truncation() {
    let keys = SessionKeys::generate(&toy_of(16384));
    let word = keys.seal_word(5).unwrap();
    assert_eq!(safe_serialize_item(&word).err(), Some(CodecError::Encoding));
    assert_eq!(
        write_all(&vec![word], Field::Price).err(),
        Some(ProtocolError::Encoding { field: Field::Price, index: 0 })
    );
}

#[test]
fn vectors_are_written_and_read_in_place() {
    let keys = SessionKeys::generate(&toy());
    let flags: Vec<FheBool> =
        [true, false, false, true].iter().map(|&v| keys.seal_flag(v).unwrap()).collect();
    let payloads = write_all(&flags, Field::Cell).unwrap();
    assert_eq!(payloads.len(), 4);
    let back: Vec<FheBool> = read_all(&payloads, Field::Cell).unwrap();
    let opened: Vec<Option<bool>> = back.iter().map(|c| keys.open_flag(c)).collect();
    assert_eq!(opened, vec![Some(true), Some(false), Some(false), Some(true)]);
    let none: Vec<FheBool> = read_all(&Vec::new(), Field::Cell).unwrap();
    assert!(none.is_empty());
    assert!(write_all(&none, Field::Cell).unwrap().is_empty());
}

#[test]
fn the_first_payload_at_fault_fails_the_vector() {
    let keys = SessionKeys::generate(&toy());
    let good = safe_serialize_item(&keys.seal_flag(true).unwrap()).unwrap();
    let payloads = vec![good.clone(), good.clone(), vec![9u8; 40], vec![0u8; MAX_PAYLOAD_BYTES + 1]];
    assert_eq!(
        read_all::<FheBool>(&payloads, Field::Side).err(),
        Some(ProtocolError::Malformed { field: Field::Side, index: 2 })
    );
    let payloads = vec![good.clone(), vec![0u8; MAX_PAYLOAD_BYTES + 1], vec![9u8; 40]];
    assert_eq!(
        read_all::<FheBool>(&payloads, Field::Cell).err(),
        Some(ProtocolError::PayloadTooLarge { field: Field::Cell, index: 1 })
    );
}

#[test]
fn errors_of_one_ciphertext_keep_their_kind_when_placed() {
    assert_eq!(
        place(CodecError::Encoding, Field::Price, 3),
        ProtocolError::Encoding { field: Field::Price, index: 3 }
    );
    assert_eq!(
        place(CodecError::PayloadTooLarge, Field::Side, 0),
        ProtocolError::PayloadTooLarge { field: Field::Side, index: 0 }
    );
    assert_eq!(
        place(CodecError::Malformed, Field::Cell, 7),
        ProtocolError::Malformed { field: Field::Cell, index: 7 }
    );
}

#[test]
fn ciphertexts_of_another_shape_do_not_fit() {
    let keys = SessionKeys::generate(&toy());
    let other = SessionKeys::generate(&toy_of(512));
    let own = vec![keys.seal_flag(true).unwrap(), keys.seal_flag(false).unwrap()];
    assert_eq!(find_misfit(&own, keys.evaluation_key()), None);
    let mixed = vec![keys.seal_flag(true).unwrap(), other.seal_flag(true).unwrap()];
    assert_eq!(find_misfit(&mixed, keys.evaluation_key()), Some(1));
    assert_eq!(find_misfit(&mixed, other.evaluation_key()), Some(0));
    assert_eq!(keys.open_flag(&mixed[1]), None);
    assert_eq!(other.open_flag(&mixed[1]), Some(true));
    let words = vec![other.seal_word(3).unwrap()];
    assert_eq!(find_misfit(&words, keys.evaluation_key()), Some(0));
    assert_eq!(find_misfit(&words, other.evaluation_key()), None);
}

#[test]
fn an_evaluation_key_of_other_parameters_is_refused() {
    let keys = SessionKeys::generate(&toy());
    let bytes = keys.evaluation_key_bytes().unwrap();
    let key = read_written_key(&bytes).unwrap();
    assert!(EvaluationKey::check(key, &toy_of(512)).is_none());
    let key = read_written_key(&bytes).unwrap();
    assert!(EvaluationKey::check(key, &Parameters::standard()).is_none());
    let key = read_written_key(&bytes).unwrap();
    assert!(EvaluationKey::check(key, &toy()).is_some());
}

#[test]
fn parameters_with_more_than_two_bits_to_a_block_are_refused() {
    let three_bits = tfhe::ConfigBuilder::with_custom_parameters(
        tfhe::shortint::parameters::PARAM_MESSAGE_3_CARRY_3_KS_PBS,
    )
    .build();
    assert!(Parameters::custom(three_bits).is_none());
    let four_bits = tfhe::ConfigBuilder::with_custom_parameters(
        tfhe::shortint::parameters::PARAM_MESSAGE_4_CARRY_4_KS_PBS,
    )
    .build();
    assert!(Parameters::custom(four_bits).is_none());
    let two_bits = tfhe::ConfigBuilder::with_custom_parameters(
        tfhe::shortint::parameters::PARAM_MESSAGE_2_CARRY_2_KS_PBS,
    )
    .build();
    assert!(Parameters::custom(two_bits).is_some());
    let one_bit = tfhe::ConfigBuilder::with_custom_parameters(
        tfhe::shortint::parameters::PARAM_MESSAGE_1_CARRY_1_KS_PBS,
    )
    .build();
    assert!(Parameters::custom(one_bit).is_some());
    assert!(Parameters::custom(toy_config()).is_some());
}

/// The position of the four sizes of the toy bootstrapping key in its
/// encoding: dimension 1, size 2, base 23, one level.
fn sizes_at(bytes: &[u8]) -> usize {
    let mut pattern = Vec::new();
    for size in [1u64, 2, 23, 1] {
        pattern.extend_from_slice(&size.to_le_bytes());
    }
    let found: Vec<usize> =
        (0..bytes.len() - pattern.len()).filter(|&i| bytes[i..i + pattern.len()] == pattern[..]).collect();
    assert_eq!(found.len(), 1);
    found[0]
}

#[test]
fn a_key_with_crafted_sizes_is_refused_before_the_provider_checks_it() {
    let keys = SessionKeys::generate(&toy());
    let bytes = keys.evaluation_key_bytes().unwrap();
    let at = sizes_at(&bytes);

    let mut huge_size = bytes.clone();
    huge_size[at + 8..at + 16].copy_from_slice(&(1u64 << 32).to_le_bytes());
    let key: tfhe::ServerKey = bincode::deserialize(&huge_size).unwrap();
    assert!(EvaluationKey::check(key, &toy()).is_none());

    let mut huge_dimension = bytes.clone();
    huge_dimension[at..at + 8].copy_from_slice(&u64::MAX.to_le_bytes());
    let key: tfhe::ServerKey = bincode::deserialize(&huge_dimension).unwrap();
    assert!(EvaluationKey::check(key, &toy()).is_none());

    let mut more_levels = bytes.clone();
    more_levels[at + 24..at + 32].copy_from_slice(&(1u64 << 62).to_le_bytes());
    let key: tfhe::ServerKey = bincode::deserialize(&more_levels).unwrap();
    assert!(EvaluationKey::check(key, &toy()).is_none());

    let key: tfhe::ServerKey = bincode::deserialize(&bytes).unwrap();
    assert!(EvaluationKey::check(key, &toy()).is_some());
}

/// Key generation under the provider's default parameters takes most of
/// the time that a test has, so no round is run here: the keys are
/// generated, held against their parameters, and a boolean is sealed and
/// opened.
#[test]
fn keys_of_the_standard_parameters_are_sound_and_seal_and_open() {
    let standard = Parameters::standard();
    let keys = SessionKeys::generate(&standard);
    for value in [true, false] {
        let flag = keys.seal_flag(value).unwrap();
        assert_eq!(find_misfit(&vec![flag], keys.evaluation_key()), None);
        let flag = keys.seal_flag(value).unwrap();
        assert_eq!(keys.open_flag(&flag), Some(value));
    }
    let word = keys.seal_word(u32::MAX).unwrap();
    let payload = safe_serialize_item(&word).unwrap();
    assert!(payload.len() <= MAX_PAYLOAD_BYTES);
    assert_eq!(find_misfit(&vec![word], keys.evaluation_key()), None);
    assert!(find_misfit(&vec![toy_word()], keys.evaluation_key()).is_some());
}

fn toy_word() -> CipherU32 {
    SessionKeys::generate(&toy()).seal_word(1).unwrap()
}

#[test]
fn an_encoding_is_never_empty_and_is_the_same_each_time() {
    let keys = SessionKeys::generate(&toy());
    let flag = keys.seal_flag(true).unwrap();
    let word = keys.seal_word(77).unwrap();
    let first = safe_serialize_item(&flag).unwrap();
    let second = safe_serialize_item(&flag).unwrap();
    assert!(!first.is_empty());
    assert_eq!(first, second);
    let first = safe_serialize_item(&word).unwrap();
    let second = safe_serialize_item(&word).unwrap();
    assert!(!first.is_empty());
    assert_eq!(first, second);
    let large = SessionKeys::generate(&toy_of(16384));
    let word = large.seal_word(77).unwrap();
    assert_eq!(safe_serialize_item(&word), safe_serialize_item(&word));
}

#[test]
fn the_extremes_of_a_price_are_sealed_whole() {
    let keys = SessionKeys::generate(&toy());
    for value in [0u32, 1, 1 << 30, (1 << 30) + 1, 1 << 31, u32::MAX - 1, u32::MAX] {
        let word = keys.seal_word(value).unwrap();
        let flag = keys.seal_flag(true).unwrap();
        assert!(compare_one(&keys, word, flag, &one_order(value, false)));
        let word = keys.seal_word(value).unwrap();
        let flag = keys.seal_flag(true).unwrap();
        assert!(!compare_one(&keys, word, flag, &one_order(value ^ (1 << 30), false)));
    }
}
