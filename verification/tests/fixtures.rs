use fhe_darkpool_poc::common::Order;
use fhe_darkpool_poc::matching::{orders_cross, MatchScope};
use fhe_darkpool_poc::test_data::{
    create_numbered_test_data, create_order_test_data, first_book_numbered,
    second_book_numbered, user_one_orders_match, user_one_orders_no_match,
    user_two_orders_match, user_two_orders_no_match,
};

fn prices(book: &[Order]) -> Vec<u32> {
    book.iter().map(|o| o.price).collect()
}

fn sides(book: &[Order]) -> Vec<bool> {
    book.iter().map(|o| o.a_for_b).collect()
}

fn crossing_pairs(a: &[Order], b: &[Order]) -> Vec<(usize, usize)> {
    let mut found = Vec::new();
    for (i, x) in a.iter().enumerate() {
        for (j, y) in b.iter().enumerate() {
            if orders_cross(MatchScope::PriceAndSide, x, y) {
                found.push((i, j));
            }
        }
    }
    found
}

#[test]
fn user_one_books_bid_100_to_109() {
    for book in [user_one_orders_match(), user_one_orders_no_match()] {
        assert_eq!(prices(&book.order), vec![100, 101, 102, 103, 104, 105, 106, 107, 108, 109]);
        assert_eq!(sides(&book.order), vec![true; 10]);
        assert!(book.order.iter().all(|o| o.asset_a == 1 && o.asset_b == 2));
    }
}

#[test]
fn user_two_match_book_sells_at_100_in_ninth_place() {
    let book = user_two_orders_match();
    assert_eq!(prices(&book.order), vec![200, 201, 202, 203, 204, 205, 206, 207, 100, 209]);
    assert_eq!(
        sides(&book.order),
        vec![true, true, true, true, true, true, true, true, false, true]
    );
    assert!(book.order.iter().all(|o| o.asset_a == 1 && o.asset_b == 2));
}

#[test]
fn user_two_no_match_book_bids_105_in_ninth_place() {
    let book = user_two_orders_no_match();
    assert_eq!(prices(&book.order), vec![200, 201, 202, 203, 204, 205, 206, 207, 105, 209]);
    assert_eq!(sides(&book.order), vec![true; 10]);
}

#[test]
fn match_fixtures_cross_in_exactly_one_cell() {
    let one = user_one_orders_match();
    let two = user_two_orders_match();
    assert_eq!(crossing_pairs(&one.order, &two.order), vec![(0, 8)]);
    assert_eq!(crossing_pairs(&two.order, &one.order), vec![(8, 0)]);
}

#[test]
fn no_match_fixtures_share_a_price_but_never_cross() {
    let one = user_one_orders_no_match();
    let two = user_two_orders_no_match();
    assert!(prices(&one.order).contains(&105) && prices(&two.order).contains(&105));
    assert!(crossing_pairs(&one.order, &two.order).is_empty());
    assert!(crossing_pairs(&two.order, &one.order).is_empty());
}

#[test]
fn generated_books_with_a_forced_match() {
    let (a, b) = create_order_test_data(10, true);
    assert_eq!(prices(&a.order), vec![100, 101, 102, 103, 104, 105, 106, 107, 108, 109]);
    assert_eq!(sides(&a.order), vec![true; 10]);
    assert_eq!(prices(&b.order), vec![100, 201, 202, 203, 204, 205, 206, 207, 208, 209]);
    assert_eq!(
        sides(&b.order),
        vec![false, true, true, true, true, true, true, true, true, true]
    );
    assert_eq!(crossing_pairs(&a.order, &b.order), vec![(0, 0)]);
}

#[test]
fn generated_books_without_a_match() {
    let (a, b) = create_order_test_data(4, false);
    assert_eq!(prices(&a.order), vec![100, 101, 102, 103]);
    assert_eq!(prices(&b.order), vec![200, 201, 202, 203]);
    assert_eq!(sides(&b.order), vec![true; 4]);
    assert!(crossing_pairs(&a.order, &b.order).is_empty());
}

#[test]
fn generated_books_of_no_orders() {
    let (a, b) = create_order_test_data(0, false);
    assert!(a.order.is_empty() && b.order.is_empty());
    let (a, b) = create_order_test_data(0, true);
    assert!(a.order.is_empty());
    assert_eq!(prices(&b.order), vec![100]);
    assert_eq!(sides(&b.order), vec![false]);
}

#[test]
fn generated_book_of_one_order() {
    let (a, b) = create_order_test_data(1, true);
    assert_eq!(prices(&a.order), vec![100]);
    assert_eq!(prices(&b.order), vec![100]);
    assert_eq!(crossing_pairs(&a.order, &b.order), vec![(0, 0)]);
}

#[test]
fn identifiers_are_drawn_anew() {
    let first = user_one_orders_match();
    let second = user_one_orders_match();
    let ids = |book: &[Order]| book.iter().map(|o| o.id).collect::<Vec<u32>>();
    assert_ne!(ids(&first.order), ids(&second.order));
}

#[test]
fn crossing_needs_equal_price_and_opposite_sides() {
    let buy = Order { id: 1, asset_a: 1, asset_b: 2, price: 100, a_for_b: true };
    let sell = Order { id: 2, asset_a: 1, asset_b: 2, price: 100, a_for_b: false };
    let dearer = Order { id: 3, asset_a: 1, asset_b: 2, price: 101, a_for_b: false };
    let elsewhere = Order { id: 4, asset_a: 7, asset_b: 2, price: 100, a_for_b: false };
    assert!(orders_cross(MatchScope::PriceAndSide, &buy, &sell));
    assert!(orders_cross(MatchScope::PriceAndSide, &sell, &buy));
    assert!(!orders_cross(MatchScope::PriceAndSide, &buy, &buy));
    assert!(!orders_cross(MatchScope::PriceAndSide, &buy, &dearer));
    assert!(orders_cross(MatchScope::PriceAndSide, &buy, &elsewhere));
    assert!(!orders_cross(MatchScope::WithAssetPair, &buy, &elsewhere));
    assert!(orders_cross(MatchScope::WithAssetPair, &buy, &sell));
}

#[test]
fn identifiers_differ_within_a_book() {
    let (a, b) = create_order_test_data(50, true);
    let books = [
        user_one_orders_match(),
        user_one_orders_no_match(),
        user_two_orders_match(),
        user_two_orders_no_match(),
        a,
        b,
    ];
    for book in books {
        let mut ids: Vec<u32> = book.order.iter().map(|o| o.id).collect();
        let first = ids[0];
        for (k, id) in ids.iter().enumerate() {
            assert_eq!(*id, first.wrapping_add(k as u32));
        }
        ids.sort();
        ids.dedup();
        assert_eq!(ids.len(), book.order.len());
    }
}

#[test]
fn books_are_numbered_from_the_identifier_that_is_given() {
    let book = first_book_numbered(7);
    assert_eq!(book.iter().map(|o| o.id).collect::<Vec<u32>>(), (7..17).collect::<Vec<u32>>());
    assert_eq!(prices(&book), vec![100, 101, 102, 103, 104, 105, 106, 107, 108, 109]);
    let book = second_book_numbered(u32::MAX - 2, 100, false);
    let ids: Vec<u32> = book.iter().map(|o| o.id).collect();
    assert_eq!(ids, vec![u32::MAX - 2, u32::MAX - 1, u32::MAX, 0, 1, 2, 3, 4, 5, 6]);
    assert_eq!(prices(&book), vec![200, 201, 202, 203, 204, 205, 206, 207, 100, 209]);
    assert_eq!(sides(&book)[8], false);
    let (a, b) = create_numbered_test_data(3, true, 10, 20);
    assert_eq!(a.order.iter().map(|o| o.id).collect::<Vec<u32>>(), vec![10, 11, 12]);
    assert_eq!(b.order.iter().map(|o| o.id).collect::<Vec<u32>>(), vec![20, 21, 22]);
    assert_eq!(prices(&b.order), vec![100, 201, 202]);
    let (a, b) = create_numbered_test_data(0, true, 10, 20);
    assert!(a.order.is_empty());
    assert_eq!(b.order.iter().map(|o| o.id).collect::<Vec<u32>>(), vec![20]);
}
