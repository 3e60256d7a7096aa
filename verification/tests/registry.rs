use recycle_store::item::{confirmation, MatchError, RecyclableItem};
use recycle_store::store::ItemStore;

fn text(s: &str) -> String {
    s.to_string()
}

fn two_items() -> ItemStore {
    let mut store = ItemStore::new();
    store.list_recyclable_item(text("plastic"), text("a bottle"), 10, text("http://x/img1"), 1_000);
    store.list_recyclable_item(text("paper"), text("a box"), 5, text("http://x/img2"), 2_000);
    store
}

#[test]
fn new_store_lists_nothing() {
    let store = ItemStore::new();
    assert!(store.get_all_items().is_empty());
    assert!(!store.is_full());
}

#[test]
fn first_identifier_is_one() {
    let mut store = ItemStore::new();
    let id = store.list_recyclable_item(text("glass"), text("a jar"), 3, text("u"), 7);
    assert_eq!(id, 1);
}

#[test]
fn identifiers_are_unique_and_increasing() {
    let mut store = ItemStore::new();
    let mut previous = 0u64;
    for n in 0..200u64 {
        let id = store.list_recyclable_item(text("metal"), text("a can"), n, text("u"), n);
        assert!(id > previous);
        assert_eq!(id, n + 1);
        previous = id;
    }
}

#[test]
fn identifiers_keep_increasing_across_matches() {
    let mut store = ItemStore::new();
    let a = store.list_recyclable_item(text("a"), text("a"), 1, text("a"), 1);
    assert!(store.match_with_business(a).is_ok());
    let b = store.list_recyclable_item(text("b"), text("b"), 2, text("b"), 2);
    assert_eq!(store.match_with_business(77), Err(MatchError::NotFound));
    let c = store.list_recyclable_item(text("c"), text("c"), 3, text("c"), 3);
    assert_eq!((a, b, c), (1, 2, 3));
}

#[test]
fn listing_after_registrations_has_every_record_unmatched() {
    let mut store = ItemStore::new();
    for n in 0..25u64 {
        store.list_recyclable_item(
            format!("category {n}"),
            format!("item {n}"),
            n * 2,
            format!("http://x/{n}"),
            100 + n,
        );
    }
    let listing = store.get_all_items();
    assert_eq!(listing.len(), 25);
    for (index, item) in listing.iter().enumerate() {
        let n = index as u64;
        assert_eq!(
            *item,
            RecyclableItem {
                id: n + 1,
                category: format!("category {n}"),
                description: format!("item {n}"),
                estimated_price: n * 2,
                image_url: format!("http://x/{n}"),
                matched: false,
                timestamp: 100 + n,
            }
        );
    }
}

#[test]
fn listing_is_in_ascending_order_of_identifier() {
    let mut store = ItemStore::new();
    for n in 0..50u64 {
        store.list_recyclable_item(text("c"), text("d"), n, text("u"), 0);
    }
    store.match_with_business(30).unwrap();
    store.match_with_business(2).unwrap();
    let ids: Vec<u64> = store.get_all_items().iter().map(|item| item.id).collect();
    let expected: Vec<u64> = (1..=50).collect();
    assert_eq!(ids, expected);
}

#[test]
fn fields_are_stored_as_supplied() {
    let mut store = ItemStore::new();
    let id = store.list_recyclable_item(text(""), text(""), 0, text("not a url"), 0);
    let id_max = store.list_recyclable_item(text("paper"), text("x"), u64::MAX, text(""), u64::MAX);
    let listing = store.get_all_items();
    assert_eq!(
        listing,
        vec![
            RecyclableItem {
                id,
                category: text(""),
                description: text(""),
                estimated_price: 0,
                image_url: text("not a url"),
                matched: false,
                timestamp: 0,
            },
            RecyclableItem {
                id: id_max,
                category: text("paper"),
                description: text("x"),
                estimated_price: u64::MAX,
                image_url: text(""),
                matched: false,
                timestamp: u64::MAX,
            },
        ]
    );
}

#[test]
fn timestamps_need_not_increase() {
    let mut store = ItemStore::new();
    store.list_recyclable_item(text("a"), text("a"), 1, text("a"), 500);
    store.list_recyclable_item(text("b"), text("b"), 1, text("b"), 500);
    store.list_recyclable_item(text("c"), text("c"), 1, text("c"), 499);
    let stamps: Vec<u64> = store.get_all_items().iter().map(|item| item.timestamp).collect();
    assert_eq!(stamps, vec![500, 500, 499]);
}

#[test]
fn matching_an_unmatched_item_succeeds() {
    let mut store = two_items();
    let outcome = store.match_with_business(2);
    assert_eq!(outcome, Ok(text("Item successfully matched with a business!")));
}

#[test]
fn matching_sets_only_that_flag() {
    let mut store = two_items();
    store.list_recyclable_item(text("glass"), text("a jar"), 7, text("http://x/img3"), 3_000);
    let before = store.get_all_items();
    store.match_with_business(2).unwrap();
    let after = store.get_all_items();
    assert_eq!(after.len(), 3);
    assert_eq!(after[0], before[0]);
    assert_eq!(after[2], before[2]);
    assert_eq!(
        after[1],
        RecyclableItem {
            id: 2,
            category: text("paper"),
            description: text("a box"),
            estimated_price: 5,
            image_url: text("http://x/img2"),
            matched: true,
            timestamp: 2_000,
        }
    );
}

#[test]
fn matching_twice_reports_already_matched() {
    let mut store = two_items();
    assert!(store.match_with_business(1).is_ok());
    let after_first = store.get_all_items();
    assert_eq!(store.match_with_business(1), Err(MatchError::AlreadyMatched));
    assert_eq!(store.match_with_business(1), Err(MatchError::AlreadyMatched));
    let after_third = store.get_all_items();
    assert_eq!(after_first, after_third);
    assert!(after_third[0].matched);
}

#[test]
fn matching_an_unknown_identifier_reports_not_found() {
    let mut store = two_items();
    let before = store.get_all_items();
    assert_eq!(store.match_with_business(0), Err(MatchError::NotFound));
    assert_eq!(store.match_with_business(3), Err(MatchError::NotFound));
    assert_eq!(store.match_with_business(99), Err(MatchError::NotFound));
    assert_eq!(store.match_with_business(u64::MAX), Err(MatchError::NotFound));
    assert_eq!(store.get_all_items(), before);
}

#[test]
fn matching_in_an_empty_store_reports_not_found() {
    let mut store = ItemStore::new();
    assert_eq!(store.match_with_business(1), Err(MatchError::NotFound));
    assert!(store.get_all_items().is_empty());
}

#[test]
fn a_failed_match_does_not_consume_an_identifier() {
    let mut store = ItemStore::new();
    assert_eq!(store.match_with_business(1), Err(MatchError::NotFound));
    let id = store.list_recyclable_item(text("a"), text("a"), 1, text("a"), 1);
    assert_eq!(id, 1);
    assert!(store.match_with_business(1).is_ok());
}

#[test]
fn an_earlier_listing_is_not_touched_by_later_calls() {
    let mut store = two_items();
    let snapshot = store.get_all_items();
    store.match_with_business(1).unwrap();
    store.list_recyclable_item(text("glass"), text("a jar"), 7, text("http://x/img3"), 3_000);
    assert_eq!(snapshot.len(), 2);
    assert!(!snapshot[0].matched);
    assert!(!snapshot[1].matched);
    assert_eq!(store.get_all_items().len(), 3);
    assert!(store.get_all_items()[0].matched);
}

#[test]
fn the_two_failures_have_distinct_messages() {
    assert_eq!(MatchError::NotFound.message(), "Item not found.");
    assert_eq!(MatchError::AlreadyMatched.message(), "Item already matched");
    assert_ne!(MatchError::NotFound, MatchError::AlreadyMatched);
}

#[test]
fn confirmation_text_is_fixed() {
    assert_eq!(confirmation(), "Item successfully matched with a business!");
}

#[test]
fn a_cloned_record_equals_its_source() {
    let store = two_items();
    let listing = store.get_all_items();
    let copy = listing[1].clone();
    assert_eq!(copy, listing[1]);
    assert_eq!(copy.category, "paper");
    assert_eq!(copy.timestamp, 2_000);
}

#[test]
fn register_list_match_scenario() {
    let mut store = ItemStore::new();
    let first = store.list_recyclable_item(
        text("plastic"),
        text("a bottle"),
        10,
        text("http://x/img1"),
        1_000,
    );
    assert_eq!(first, 1);
    let second = store.list_recyclable_item(
        text("paper"),
        text("a box"),
        5,
        text("http://x/img2"),
        2_000,
    );
    assert_eq!(second, 2);

    let listing = store.get_all_items();
    assert_eq!(listing.len(), 2);
    assert_eq!(listing[0].id, 1);
    assert_eq!(listing[1].id, 2);
    assert!(!listing[0].matched);
    assert!(!listing[1].matched);

    let outcome = store.match_with_business(1);
    assert_eq!(outcome, Ok(text("Item successfully matched with a business!")));
    let listing = store.get_all_items();
    assert_eq!(listing.len(), 2);
    assert!(listing[0].matched);
    assert_eq!(
        listing[1],
        RecyclableItem {
            id: 2,
            category: text("paper"),
            description: text("a box"),
            estimated_price: 5,
            image_url: text("http://x/img2"),
            matched: false,
            timestamp: 2_000,
        }
    );

    assert_eq!(store.match_with_business(1), Err(MatchError::AlreadyMatched));
    assert_eq!(store.match_with_business(99), Err(MatchError::NotFound));
}
