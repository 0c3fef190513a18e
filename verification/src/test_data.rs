//! Ready-made order books for trying out a matching round.
//!
//! Every book trades the market (1, 2). Prices and sides are fixed. The
//! identifiers of a book start at a number drawn at random and count up
//! from there, so that they differ within the book and carry no meaning.

use crate::common::{Order, Orders};
use crate::matching::{
    any_cross, crosses, law_same_side_never_matches, lemma_any_cross_is_some_pair, MatchScope,
};
use crate::provider::random_u32;
use vstd::prelude::*;

verus! {

/// Whether `o` is an order on the market (1, 2) with the given price and side.
pub open spec fn is_fixture(o: Order, price: int, a_for_b: bool) -> bool {
    o.asset_a == 1 && o.asset_b == 2 && o.price == price && o.a_for_b == a_for_b
}

/// Ten buys at the prices 100, 101, ..., 109.
pub open spec fn buys_from_100(book: Seq<Order>) -> bool {
    book.len() == 10 && forall|i: int| 0 <= i < 10 ==> is_fixture(#[trigger] book[i], 100 + i, true)
}

/// The identifier of the order at position `k` of a book whose identifiers
/// start at `first`: `first + k`, wrapping round at 32 bits.
pub open spec fn nth_id(first: u32, k: int) -> int {
    if first + k > u32::MAX {
        first + k - 0x1_0000_0000
    } else {
        first + k
    }
}

/// Whether the identifiers of `book` count up from `first`.
pub open spec fn numbered_from(book: Seq<Order>, first: u32) -> bool {
    forall|k: int| 0 <= k < book.len() ==> (#[trigger] book[k]).id == nth_id(first, k)
}

/// Whether no two orders of `book` have the same identifier.
pub open spec fn distinct_ids(book: Seq<Order>) -> bool {
    forall|i: int, j: int|
        0 <= i < j < book.len() ==> (#[trigger] book[i]).id != (#[trigger] book[j]).id
}

/// Identifiers that count up from one number differ, as long as the book
/// holds no more orders than there are identifiers.
pub proof fn lemma_numbered_ids_differ(book: Seq<Order>, first: u32)
    requires
        numbered_from(book, first),
        book.len() <= 0x1_0000_0000,
    ensures
        distinct_ids(book),
{
    assert forall|i: int, j: int| 0 <= i < j < book.len() implies (#[trigger] book[i]).id != (
    #[trigger] book[j]).id by {
        assert(book[i].id == nth_id(first, i));
        assert(book[j].id == nth_id(first, j));
    }
}

/// The order at `position` of a book whose identifiers start at `first_id`.
fn fixture(first_id: u32, position: u32, price: u32, a_for_b: bool) -> (o: Order)
    ensures
        is_fixture(o, price as int, a_for_b),
        o.id == nth_id(first_id, position as int),
{
    Order { id: first_id.wrapping_add(position), asset_a: 1, asset_b: 2, price, a_for_b }
}

/// The first party's book with identifiers of the caller's choice: ten buys
/// at 100..=109, numbered from `first_id`.
pub fn first_book_numbered(first_id: u32) -> (book: Vec<Order>)
    ensures
        buys_from_100(book@),
        numbered_from(book@, first_id),
        distinct_ids(book@),
{
    let mut book: Vec<Order> = Vec::new();
    let mut i: u32 = 0;
    while i < 10
        invariant
            i <= 10,
            book@.len() == i,
            numbered_from(book@, first_id),
            forall|k: int| 0 <= k < i ==> is_fixture(#[trigger] book@[k], 100 + k, true),
        decreases 10 - i,
    {
        book.push(fixture(first_id, i, 100 + i, true));
        i = i + 1;
    }
    proof {
        lemma_numbered_ids_differ(book@, first_id);
    }
    book
}

/// Ten orders at the prices 200, 201, ..., 209, all buys, except that the
/// order at position 8 has the price `eighth_price` and the side `eighth_side`.
pub open spec fn buys_from_200_but_eighth(book: Seq<Order>, eighth_price: int, eighth_side: bool) -> bool {
    book.len() == 10 && forall|i: int|
        0 <= i < 10 ==> is_fixture(
            #[trigger] book[i],
            if i == 8 { eighth_price } else { 200 + i },
            if i == 8 { eighth_side } else { true },
        )
}

/// The second party's book with identifiers of the caller's choice: buys at
/// 200..=207 and 209 around the order at position 8, which has the given
/// price and side; numbered from `first_id`.
pub fn second_book_numbered(first_id: u32, eighth_price: u32, eighth_side: bool) -> (book: Vec<
    Order,
>)
    ensures
        buys_from_200_but_eighth(book@, eighth_price as int, eighth_side),
        numbered_from(book@, first_id),
        distinct_ids(book@),
{
    let mut book: Vec<Order> = Vec::new();
    let mut i: u32 = 0;
    while i < 10
        invariant
            i <= 10,
            book@.len() == i,
            numbered_from(book@, first_id),
            forall|k: int|
                0 <= k < i ==> is_fixture(
                    #[trigger] book@[k],
                    if k == 8 { eighth_price as int } else { 200 + k },
                    if k == 8 { eighth_side } else { true },
                ),
        decreases 10 - i,
    {
        if i == 8 {
            book.push(fixture(first_id, i, eighth_price, eighth_side));
        } else {
            book.push(fixture(first_id, i, 200 + i, true));
        }
        i = i + 1;
    }
    proof {
        lemma_numbered_ids_differ(book@, first_id);
    }
    book
}

/// The first party's book for a round in which a match exists: ten buys at
/// 100..=109. The buy at 100 meets the sell of `user_two_orders_match`.
pub fn user_one_orders_match() -> (r: Orders)
    ensures
        buys_from_100(r.order@),
        distinct_ids(r.order@),
{
    Orders { order: first_book_numbered(random_u32()) }
}

/// The first party's book for a round without a match: ten buys at 100..=109.
pub fn user_one_orders_no_match() -> (r: Orders)
    ensures
        buys_from_100(r.order@),
        distinct_ids(r.order@),
{
    Orders { order: first_book_numbered(random_u32()) }
}

/// The second party's book for a round in which a match exists: buys at
/// 200..=207 and 209, and at position 8 a sell at 100.
pub fn user_two_orders_match() -> (r: Orders)
    ensures
        buys_from_200_but_eighth(r.order@, 100, false),
        distinct_ids(r.order@),
{
    Orders { order: second_book_numbered(random_u32(), 100, false) }
}

/// The second party's book for a round without a match: buys at 200..=207
/// and 209, and at position 8 a buy at 105, a price the first party also
/// bids, on the same side.
pub fn user_two_orders_no_match() -> (r: Orders)
    ensures
        buys_from_200_but_eighth(r.order@, 105, true),
        distinct_ids(r.order@),
{
    Orders { order: second_book_numbered(random_u32(), 105, true) }
}

/// `count` buys at the prices 100, 101, 102, ...
pub open spec fn generated_bids(book: Seq<Order>, count: int) -> bool {
    book.len() == count && forall|i: int|
        0 <= i < count ==> is_fixture(#[trigger] book[i], 100 + i, true)
}

/// The counterparty's generated book. Without a forced match: `count` buys at
/// 200, 201, 202, ... With one: a sell at 100 in front, which is there even
/// when `count` is 0, followed by buys at 201, 202, ... up to position
/// `count - 1`.
pub open spec fn generated_counter(book: Seq<Order>, count: int, is_match: bool) -> bool {
    if is_match {
        &&& book.len() == (if count == 0 { 1 } else { count })
        &&& is_fixture(book[0], 100, false)
        &&& forall|i: int| 1 <= i < count ==> is_fixture(#[trigger] book[i], 200 + i, true)
    } else {
        &&& book.len() == count
        &&& forall|i: int| 0 <= i < count ==> is_fixture(#[trigger] book[i], 200 + i, true)
    }
}

/// Generates one book for each of two parties, `number_of_orders` orders
/// each, with identifiers of the caller's choice: the first party's are
/// numbered from `first_a`, the second party's from `first_b`. The first party bids 100, 101, 102, ... The second bids from 200
/// upwards, so that nothing crosses; with `is_match` its first order is
/// instead a sell at 100, which crosses the first party's first order.
///
/// The prices must fit into 32 bits, which bounds `number_of_orders`.
pub fn create_numbered_test_data(
    number_of_orders: u32,
    is_match: bool,
    first_a: u32,
    first_b: u32,
) -> (r: (Orders, Orders))
    requires
        number_of_orders + 199 <= u32::MAX,
    ensures
        generated_bids(r.0.order@, number_of_orders as int),
        generated_counter(r.1.order@, number_of_orders as int, is_match),
        numbered_from(r.0.order@, first_a),
        numbered_from(r.1.order@, first_b),
        distinct_ids(r.0.order@),
        distinct_ids(r.1.order@),
{
    let mut orders_a: Vec<Order> = Vec::with_capacity(number_of_orders as usize);
    let mut orders_b: Vec<Order> = Vec::with_capacity(number_of_orders as usize);

    let mut i: u32 = 0;
    while i < number_of_orders
        invariant
            i <= number_of_orders,
            number_of_orders + 199 <= u32::MAX,
            generated_bids(orders_a@, i as int),
            numbered_from(orders_a@, first_a),
        decreases number_of_orders - i,
    {
        orders_a.push(fixture(first_a, i, 100 + i, true));
        i = i + 1;
    }

    let mut j: u32 = 0;
    if is_match {
        let first_price: u32 = if orders_a.len() > 0 { orders_a[0].price } else { 100 };
        orders_b.push(fixture(first_b, 0, first_price, false));
        j = 1;
    }
    while j < number_of_orders
        invariant
            number_of_orders + 199 <= u32::MAX,
            is_match ==> 1 <= j && is_fixture(orders_b@[0], 100, false),
            orders_b@.len() == j,
            numbered_from(orders_b@, first_b),
            j <= number_of_orders || (is_match && j == 1),
            forall|k: int|
                (if is_match { 1int } else { 0int }) <= k < j ==> is_fixture(
                    #[trigger] orders_b@[k],
                    200 + k,
                    true,
                ),
        decreases number_of_orders - j,
    {
        orders_b.push(fixture(first_b, j, 200 + j, true));
        j = j + 1;
    }
    proof {
        lemma_numbered_ids_differ(orders_a@, first_a);
        lemma_numbered_ids_differ(orders_b@, first_b);
    }

    (Orders { order: orders_a }, Orders { order: orders_b })
}

/// Generates one book for each of two parties, `number_of_orders` orders
/// each. The first party bids 100, 101, 102, ... The second bids from 200
/// upwards, so that nothing crosses; with `is_match` its first order is
/// instead a sell at 100, which crosses the first party's first order. The
/// identifiers of each book start at a number drawn at random.
///
/// The prices must fit into 32 bits, which bounds `number_of_orders`.
pub fn create_order_test_data(number_of_orders: u32, is_match: bool) -> (r: (Orders, Orders))
    requires
        number_of_orders + 199 <= u32::MAX,
    ensures
        generated_bids(r.0.order@, number_of_orders as int),
        generated_counter(r.1.order@, number_of_orders as int, is_match),
        distinct_ids(r.0.order@),
        distinct_ids(r.1.order@),
{
    let first_a = random_u32();
    let first_b = random_u32();
    create_numbered_test_data(number_of_orders, is_match, first_a, first_b)
}

/// The books of `user_one_orders_match` and `user_two_orders_match` cross in
/// one pair only: the first party's buy at 100, at position 0, and the
/// second party's sell at 100, at position 8.
pub proof fn law_match_books_cross_once(scope: MatchScope, one: Seq<Order>, two: Seq<Order>)
    requires
        buys_from_100(one),
        buys_from_200_but_eighth(two, 100, false),
    ensures
        forall|i: int, j: int|
            0 <= i < 10 && 0 <= j < 10 ==> (crosses(scope, #[trigger] one[i], #[trigger] two[j])
                <==> i == 0 && j == 8),
{
}

/// The books of `user_one_orders_no_match` and `user_two_orders_no_match`
/// share the price 105 and still never cross: both hold buys only.
pub proof fn law_no_match_books_never_cross(scope: MatchScope, one: Seq<Order>, two: Seq<Order>)
    requires
        buys_from_100(one),
        buys_from_200_but_eighth(two, 105, true),
    ensures
        one[5].price == two[8].price,
        !any_cross(scope, one, two),
        !any_cross(scope, two, one),
{
    law_same_side_never_matches(scope, one, two, true);
    law_same_side_never_matches(scope, two, one, true);
}

/// Generated books cross exactly when a match was forced and there is an
/// order to match: then in one pair only, the first order of each book.
pub proof fn law_generated_books_cross_as_asked(
    scope: MatchScope,
    bids: Seq<Order>,
    counter: Seq<Order>,
    count: int,
    is_match: bool,
)
    requires
        0 <= count,
        count + 199 <= u32::MAX,
        generated_bids(bids, count),
        generated_counter(counter, count, is_match),
    ensures
        forall|i: int, j: int|
            0 <= i < bids.len() && 0 <= j < counter.len() ==> (crosses(
                scope,
                #[trigger] bids[i],
                #[trigger] counter[j],
            ) <==> is_match && i == 0 && j == 0),
        any_cross(scope, bids, counter) <==> is_match && count > 0,
{
    assert forall|i: int, j: int| 0 <= i < bids.len() && 0 <= j < counter.len() implies (crosses(
        scope,
        #[trigger] bids[i],
        #[trigger] counter[j],
    ) <==> is_match && i == 0 && j == 0) by {
        assert(is_fixture(bids[i], 100 + i, true));
        if is_match && j == 0 {
            assert(is_fixture(counter[0], 100, false));
        } else {
            assert(is_fixture(counter[j], 200 + j, true));
        }
    }
    lemma_any_cross_is_some_pair(scope, bids, counter);
    if is_match && count > 0 {
        assert(crosses(scope, bids[0], counter[0]));
    }
}

} // verus!
