use fhe_darkpool_poc::common::{Order, Orders, ProtocolError, RoundTerms, StateViolation};
use fhe_darkpool_poc::matching::{orders_cross, MatchScope};
use fhe_darkpool_poc::resolver::MatchReport;
use fhe_darkpool_poc::round::{answer_request, run_round, run_session, Round, RoundPhase};
use fhe_darkpool_poc::session::{EvaluationKey, Parameters};
use fhe_darkpool_poc::transport::{RoundRequest, RoundResponse};
use fhe_darkpool_poc::test_data::{
    create_order_test_data, user_one_orders_match, user_one_orders_no_match,
    user_two_orders_match, user_two_orders_no_match,
};
use tfhe::shortint::parameters::{
    DecompositionBaseLog, DecompositionLevelCount, DynamicDistribution, GlweDimension,
    LweDimension, PolynomialSize, StandardDev,
};
use tfhe::shortint::{
    CarryModulus, CiphertextModulus, ClassicPBSParameters, EncryptionKeyChoice, MaxNoiseLevel,
    MessageModulus,
};

/// Parameters far too small to be secure, so that a round runs in
/// milliseconds. The scheme computes with them as with any others.
fn toy_config() -> tfhe::Config {
    toy_config_of(256)
}

fn toy_config_of(polynomial_size: usize) -> tfhe::Config {
    let parameters = ClassicPBSParameters {
        lwe_dimension: LweDimension(1),
        glwe_dimension: GlweDimension(1),
        polynomial_size: PolynomialSize(polynomial_size),
        lwe_noise_distribution: DynamicDistribution::new_gaussian_from_std_dev(StandardDev(
            0.000007069849454709433,
        )),
        glwe_noise_distribution: DynamicDistribution::new_gaussian_from_std_dev(StandardDev(
            0.00000000000000029403601535432533,
        )),
        pbs_base_log: DecompositionBaseLog(23),
        pbs_level: DecompositionLevelCount(1),
        ks_level: DecompositionLevelCount(5),
        ks_base_log: DecompositionBaseLog(3),
        message_modulus: MessageModulus(4),
        carry_modulus: CarryModulus(4),
        max_noise_level: MaxNoiseLevel::new(5),
        log2_p_fail: -40.,
        ciphertext_modulus: CiphertextModulus::new_native(),
        encryption_key_choice: EncryptionKeyChoice::Big,
    };
    tfhe::ConfigBuilder::with_custom_parameters(parameters).build()
}

fn toy() -> Parameters {
    toy_of(256)
}

fn toy_of(polynomial_size: usize) -> Parameters {
    Parameters::custom(toy_config_of(polynomial_size)).unwrap()
}

/// What the party that answers does at its edge: reads the evaluation key
/// of the request and holds it against the agreed parameters.
#[allow(dead_code)]
fn received_key(request: &RoundRequest, parameters: &Parameters) -> Option<EvaluationKey> {
    let key: tfhe::ServerKey = bincode::deserialize(&request.evaluation_key).ok()?;
    EvaluationKey::check(key, parameters)
}

#[allow(dead_code)]
fn answer(
    request: &RoundRequest,
    book: &Orders,
    terms: &RoundTerms,
) -> Result<RoundResponse, ProtocolError> {
    answer_under(&toy(), request, book, terms)
}

#[allow(dead_code)]
fn answer_under(
    parameters: &Parameters,
    request: &RoundRequest,
    book: &Orders,
    terms: &RoundTerms,
) -> Result<RoundResponse, ProtocolError> {
    let evaluation = received_key(request, parameters).expect("a key of the agreed parameters");
    answer_request(&evaluation, request, book, terms)
}

const TERMS: RoundTerms = RoundTerms { scope: MatchScope::PriceAndSide, max_batch: 16 };

/// One round: `encrypted` is the batch of the party that opens the round,
/// `book` the plaintext book of the party that answers.
fn step_by_step(encrypted: &Orders, book: &Orders, terms: RoundTerms) -> MatchReport {
    let mut round = Round::open(&toy(), terms);
    let request = round.request(encrypted).unwrap();
    assert_eq!(round.current_phase(), RoundPhase::KeyTransmitted);
    let response = answer(&request, book, &terms).unwrap();
    assert_eq!(response.match_ciphertexts.len(), encrypted.order.len() * book.order.len());
    let report = round.resolve(&response, book.order.len()).unwrap();
    assert_eq!(round.current_phase(), RoundPhase::EvaluationPerformed);
    round.retire();
    assert_eq!(round.current_phase(), RoundPhase::Retired);
    report
}

fn oracle(scope: MatchScope, a: &Orders, b: &Orders) -> Vec<(usize, usize)> {
    let mut pairs = Vec::new();
    for (i, x) in a.order.iter().enumerate() {
        for (j, y) in b.order.iter().enumerate() {
            if orders_cross(scope, x, y) {
                pairs.push((i, j));
            }
        }
    }
    pairs
}

fn book_of(entries: &[(u32, bool)]) -> Orders {
    Orders {
        order: entries
            .iter()
            .enumerate()
            .map(|(i, &(price, a_for_b))| Order {
                id: 1000 + i as u32,
                asset_a: 1,
                asset_b: 2,
                price,
                a_for_b,
            })
            .collect(),
    }
}

/// Ten orders on each side that cannot match: all are buys, though the
/// price 105 occurs in both books. Asset identifiers, price and side are
/// all compared.
#[test]
fn test_no_match() {
    let wide = RoundTerms { scope: MatchScope::WithAssetPair, max_batch: 16 };
    let user_one_orders = user_one_orders_no_match();
    let user_two_orders = user_two_orders_no_match();

    let for_one = step_by_step(&user_one_orders, &user_two_orders, wide);
    assert!(!for_one.any_match, "We expected no match, but got one");
    assert!(for_one.pairs.is_empty());

    let for_two = step_by_step(&user_two_orders, &user_one_orders, wide);
    assert!(!for_two.any_match, "We expected no match, but got one");
    assert!(for_two.pairs.is_empty());
}

/// Ten orders on each side of which exactly one buy and one sell cross, at
/// the price 100.
#[test]
fn test_match() {
    let user_one_orders = user_one_orders_match();
    let user_two_orders = user_two_orders_match();

    let for_one = step_by_step(&user_one_orders, &user_two_orders, TERMS);
    assert!(for_one.any_match, "Expected a match, found none");
    assert_eq!(for_one.pairs, vec![(0, 8)]);

    let for_two = step_by_step(&user_two_orders, &user_one_orders, TERMS);
    assert!(for_two.any_match, "Expected a match, found none");
    assert_eq!(for_two.pairs, vec![(8, 0)]);
}

#[test]
fn test_match_with_timing() {
    let (orders_a, orders_b) = create_order_test_data(10, true);
    let report = step_by_step(&orders_a, &orders_b, TERMS);
    assert!(report.any_match, "Expected at least one match, but found none");
    assert_eq!(report.pairs, vec![(0, 0)]);
}

#[test]
fn generated_books_without_a_match_do_not_match() {
    let (orders_a, orders_b) = create_order_test_data(6, false);
    let report = step_by_step(&orders_a, &orders_b, TERMS);
    assert!(!report.any_match);
    assert!(report.pairs.is_empty());
}

#[test]
fn every_cell_agrees_with_the_plaintext_comparison() {
    let a = book_of(&[(7, true), (7, false), (9, true), (0, false), (4294967295, true)]);
    let b = book_of(&[(7, false), (9, true), (9, false), (0, true), (4294967295, false), (7, true)]);
    let report = step_by_step(&a, &b, TERMS);
    let expected = oracle(MatchScope::PriceAndSide, &a, &b);
    assert_eq!(expected, vec![(0, 0), (1, 5), (2, 2), (3, 3), (4, 4)]);
    assert_eq!(report.pairs, expected);
    assert!(report.any_match);
}

#[test]
fn several_matches_in_one_row_are_all_reported() {
    let a = book_of(&[(50, true), (60, true)]);
    let b = book_of(&[(50, false), (50, false), (60, true), (50, false)]);
    let report = step_by_step(&a, &b, TERMS);
    assert_eq!(report.pairs, vec![(0, 0), (0, 1), (0, 3)]);
}

#[test]
fn a_match_is_found_whoever_evaluates() {
    let a = book_of(&[(11, true), (12, false), (13, true)]);
    let b = book_of(&[(12, true), (14, false)]);
    let one_way = step_by_step(&a, &b, TERMS);
    let other_way = step_by_step(&b, &a, TERMS);
    assert_eq!(one_way.any_match, other_way.any_match);
    assert_eq!(one_way.pairs, vec![(1, 0)]);
    assert_eq!(other_way.pairs, vec![(0, 1)]);

    let c = book_of(&[(20, true)]);
    assert_eq!(step_by_step(&a, &c, TERMS).any_match, step_by_step(&c, &a, TERMS).any_match);
    assert!(!step_by_step(&a, &c, TERMS).any_match);
}

#[test]
fn distinct_prices_never_match_whatever_the_sides() {
    let a = book_of(&[(1, true), (2, false), (3, true)]);
    let b = book_of(&[(4, false), (5, true), (6, false)]);
    let report = step_by_step(&a, &b, TERMS);
    assert!(!report.any_match);
    assert!(report.pairs.is_empty());
}

#[test]
fn the_asset_pair_is_compared_where_the_scope_asks_for_it() {
    let mut a = book_of(&[(100, true), (100, true), (100, true)]);
    a.order[1].asset_a = 5;
    a.order[2].asset_b = 6;
    let b = book_of(&[(100, false)]);
    let narrow = RoundTerms { scope: MatchScope::PriceAndSide, max_batch: 16 };
    let wide = RoundTerms { scope: MatchScope::WithAssetPair, max_batch: 16 };
    assert_eq!(step_by_step(&a, &b, narrow).pairs, vec![(0, 0), (1, 0), (2, 0)]);
    assert_eq!(step_by_step(&a, &b, wide).pairs, vec![(0, 0)]);
    assert_eq!(oracle(MatchScope::WithAssetPair, &a, &b), vec![(0, 0)]);
}

#[test]
fn empty_batches_give_an_empty_matrix() {
    let nothing = Orders { order: vec![] };
    let b = book_of(&[(1, false)]);
    let report = step_by_step(&nothing, &b, TERMS);
    assert!(!report.any_match && report.pairs.is_empty());
    let report = step_by_step(&b, &nothing, TERMS);
    assert!(!report.any_match && report.pairs.is_empty());
    let report = step_by_step(&nothing, &nothing, TERMS);
    assert!(!report.any_match && report.pairs.is_empty());
}

#[test]
fn a_round_in_one_process_reports_what_the_books_say() {
    let a = book_of(&[(11, true), (12, false), (13, true), (12, false)]);
    let b = book_of(&[(12, true), (14, false), (13, false)]);
    let report = run_round(&a, &b, &toy(), TERMS).unwrap();
    assert!(report.any_match);
    assert_eq!(report.pairs, vec![(1, 0), (2, 2), (3, 0)]);
    assert_eq!(report.pairs, oracle(MatchScope::PriceAndSide, &a, &b));

    let (for_a, for_b) = run_session(&a, &b, &toy(), &toy_of(512), TERMS).unwrap();
    assert_eq!(for_a.any_match, for_b.any_match);
    assert_eq!(for_a.pairs, vec![(1, 0), (2, 2), (3, 0)]);
    assert_eq!(for_b.pairs, vec![(0, 1), (0, 3), (2, 2)]);

    let c = book_of(&[(99, true)]);
    let (for_a, for_c) = run_session(&a, &c, &toy(), &toy(), TERMS).unwrap();
    assert!(!for_a.any_match && !for_c.any_match);
}

#[test]
fn a_round_in_one_process_is_held_to_the_agreed_size() {
    let a = book_of(&[(1, true), (2, true), (3, true)]);
    let b = book_of(&[(1, false)]);
    let tight = RoundTerms { scope: MatchScope::PriceAndSide, max_batch: 2 };
    assert_eq!(
        run_round(&a, &b, &toy(), tight).err(),
        Some(ProtocolError::State(StateViolation::BatchLimit))
    );
    assert_eq!(
        run_round(&b, &a, &toy(), tight).err(),
        Some(ProtocolError::State(StateViolation::BatchLimit))
    );
}

#[test]
fn only_whether_anything_matched_can_be_asked_of_a_round() {
    let a = book_of(&[(11, true), (12, false)]);
    let b = book_of(&[(12, true), (14, false)]);
    let mut round = Round::open(&toy(), TERMS);
    let request = round.request(&a).unwrap();
    let response = answer(&request, &b, &TERMS).unwrap();
    assert_eq!(round.any_match(&response, 2), Ok(true));
    assert_eq!(round.current_phase(), RoundPhase::EvaluationPerformed);

    let mut round = Round::open(&toy(), TERMS);
    let request = round.request(&a).unwrap();
    let response = answer(&request, &book_of(&[(5, true)]), &TERMS).unwrap();
    assert_eq!(round.any_match(&response, 1), Ok(false));

    let mut round = Round::open(&toy(), TERMS);
    let request = round.request(&a).unwrap();
    let mut response = answer(&request, &b, &TERMS).unwrap();
    response.match_ciphertexts.pop();
    assert!(round.any_match(&response, 2).is_err());
    assert_eq!(round.current_phase(), RoundPhase::Retired);
}

/// The books that cannot match, compared by price and side alone.
#[test]
fn the_no_match_books_do_not_match_by_price_and_side_either() {
    let wide = TERMS;
    let user_one_orders = user_one_orders_no_match();
    let user_two_orders = user_two_orders_no_match();
    let for_one = step_by_step(&user_one_orders, &user_two_orders, wide);
    assert!(!for_one.any_match, "We expected no match, but got one");
    assert!(for_one.pairs.is_empty());
    let for_two = step_by_step(&user_two_orders, &user_one_orders, wide);
    assert!(!for_two.any_match, "We expected no match, but got one");
    assert!(for_two.pairs.is_empty());
}

/// The books that match, compared with their asset identifiers too.
#[test]
fn the_match_books_match_with_their_asset_pair_too() {
    let wide = RoundTerms { scope: MatchScope::WithAssetPair, max_batch: 16 };
    let for_one = step_by_step(&user_one_orders_match(), &user_two_orders_match(), wide);
    assert!(for_one.any_match);
    assert_eq!(for_one.pairs, vec![(0, 8)]);
}
