use vopecs_pos::{Client, Product, Store, StoreError};

fn product(id: i64, code: &str, name: &str, price: i64) -> Product {
    Product {
        id,
        code: code.to_string(),
        name: name.to_string(),
        price,
        cost: None,
        category_id: None,
        brand_id: None,
        unit_id: None,
        sale_unit_id: None,
        tax_method: None,
        tax_percent: None,
        discount: None,
        discount_method: None,
        image: None,
        is_service: false,
        stock_qty: 0,
        min_stock: None,
        updated_at: "2024-01-01 00:00:00".to_string(),
    }
}

fn client(id: i64, name: &str) -> Client {
    Client {
        id,
        name: name.to_string(),
        phone: None,
        email: None,
        address: None,
        tax_number: None,
        updated_at: "2024-01-01 00:00:00".to_string(),
    }
}

fn names(products: &[Product]) -> Vec<String> {
    products.iter().map(|p| p.name.clone()).collect()
}

#[test]
fn new_store_is_empty() {
    let store = Store::new();
    assert_eq!(store.products_count(), 0);
    assert_eq!(store.pending_sales_count(), 0);
    assert!(store.get_all_products().is_empty());
    assert!(store.get_all_clients().is_empty());
    assert!(store.sync_log().is_empty());
    assert!(!store.is_sync_running());
}

#[test]
fn replace_products_returns_count_and_lists_by_name() {
    let mut store = Store::new();
    let snapshot = vec![
        product(1, "P-3", "pear", 250),
        product(2, "P-1", "apple", 100),
        product(3, "P-2", "mango", 900),
    ];
    assert_eq!(store.replace_products(snapshot), Ok(3));
    assert_eq!(store.products_count(), 3);
    assert_eq!(names(&store.get_all_products()), vec!["apple", "mango", "pear"]);
}

#[test]
fn listing_after_replace_holds_exactly_the_snapshot() {
    let mut store = Store::new();
    let snapshot = vec![
        product(10, "B", "banana", 120),
        product(11, "A", "avocado", 340),
        product(12, "C", "cherry", 560),
    ];
    let mut expected = vec![
        product(11, "A", "avocado", 340),
        product(10, "B", "banana", 120),
        product(12, "C", "cherry", 560),
    ];
    assert_eq!(store.replace_products(snapshot), Ok(3));
    let listed = store.get_all_products();
    assert_eq!(listed, expected);
    expected.sort_by(|a, b| a.code.cmp(&b.code));
    let mut by_code = listed;
    by_code.sort_by(|a, b| a.code.cmp(&b.code));
    assert_eq!(by_code, expected);
}

#[test]
fn replace_products_drops_the_previous_snapshot() {
    let mut store = Store::new();
    assert_eq!(store.replace_products(vec![product(1, "OLD", "old", 1)]), Ok(1));
    assert_eq!(store.replace_products(vec![product(2, "NEW", "new", 2)]), Ok(1));
    assert_eq!(store.get_all_products(), vec![product(2, "NEW", "new", 2)]);
    assert_eq!(store.get_product_by_code("OLD"), None);
}

#[test]
fn replace_products_with_empty_snapshot_clears() {
    let mut store = Store::new();
    assert_eq!(store.replace_products(vec![product(1, "A", "a", 1)]), Ok(1));
    assert_eq!(store.replace_products(Vec::new()), Ok(0));
    assert_eq!(store.products_count(), 0);
}

#[test]
fn replace_products_with_duplicate_code_keeps_previous_snapshot() {
    let mut store = Store::new();
    let before = vec![product(1, "A", "first", 10), product(2, "B", "second", 20)];
    assert_eq!(store.replace_products(before), Ok(2));
    let listed_before = store.get_all_products();
    let bad = vec![
        product(5, "X", "fresh", 1),
        product(6, "Y", "other", 2),
        product(7, "X", "clash", 3),
    ];
    assert_eq!(store.replace_products(bad), Err(StoreError::TransactionFailure));
    assert_eq!(store.get_all_products(), listed_before);
    assert_eq!(store.products_count(), 2);
}

#[test]
fn replace_products_with_duplicate_id_is_refused() {
    let mut store = Store::new();
    let bad = vec![product(5, "X", "fresh", 1), product(5, "Y", "other", 2)];
    assert_eq!(store.replace_products(bad), Err(StoreError::TransactionFailure));
    assert_eq!(store.products_count(), 0);
}

#[test]
fn replace_products_with_negative_price_is_refused() {
    let mut store = Store::new();
    let bad = vec![product(5, "X", "fresh", 1), product(6, "Y", "other", -1)];
    assert_eq!(store.replace_products(bad), Err(StoreError::TransactionFailure));
    assert_eq!(store.products_count(), 0);
}

#[test]
fn replace_products_accepts_zero_price() {
    let mut store = Store::new();
    assert_eq!(store.replace_products(vec![product(5, "X", "free", 0)]), Ok(1));
}

#[test]
fn products_with_equal_names_keep_snapshot_order() {
    let mut store = Store::new();
    let snapshot = vec![
        product(1, "C1", "same", 1),
        product(2, "C2", "alpha", 2),
        product(3, "C3", "same", 3),
        product(4, "C4", "same", 4),
    ];
    assert_eq!(store.replace_products(snapshot), Ok(4));
    let codes: Vec<String> = store.get_all_products().iter().map(|p| p.code.clone()).collect();
    assert_eq!(codes, vec!["C2", "C1", "C3", "C4"]);
}

#[test]
fn names_are_ordered_by_scalar_value() {
    let mut store = Store::new();
    let snapshot = vec![
        product(1, "1", "zebra", 1),
        product(2, "2", "Zebra", 1),
        product(3, "3", "\u{e9}clair", 1),
        product(4, "4", "", 1),
        product(5, "5", "zeb", 1),
    ];
    assert_eq!(store.replace_products(snapshot), Ok(5));
    assert_eq!(
        names(&store.get_all_products()),
        vec!["", "Zebra", "zeb", "zebra", "\u{e9}clair"]
    );
}

#[test]
fn get_product_by_code_finds_the_product() {
    let mut store = Store::new();
    let snapshot = vec![product(1, "A-1", "apple", 100), product(2, "B-2", "bean", 200)];
    assert_eq!(store.replace_products(snapshot), Ok(2));
    assert_eq!(store.get_product_by_code("B-2"), Some(product(2, "B-2", "bean", 200)));
}

#[test]
fn get_product_by_code_reports_absence_as_none() {
    let mut store = Store::new();
    assert_eq!(store.replace_products(vec![product(1, "A-1", "apple", 100)]), Ok(1));
    assert_eq!(store.get_product_by_code("a-1"), None);
    assert_eq!(store.get_product_by_code(""), None);
    assert_eq!(store.get_product_by_code("A-10"), None);
}

#[test]
fn search_matches_name_or_code_ignoring_ascii_case() {
    let mut store = Store::new();
    let snapshot = vec![
        product(1, "GRN-APL", "Green Apple", 100),
        product(2, "RED-APL", "red apple", 110),
        product(3, "PINE", "Pineapple juice", 300),
        product(4, "apl-9", "Cider", 400),
        product(5, "BAN", "Banana", 50),
    ];
    assert_eq!(store.replace_products(snapshot), Ok(5));
    assert_eq!(
        names(&store.search_products("APPLE")),
        vec!["Green Apple", "Pineapple juice", "red apple"]
    );
    assert_eq!(
        names(&store.search_products("apl")),
        vec!["Cider", "Green Apple", "red apple"]
    );
    assert!(store.search_products("kiwi").is_empty());
}

#[test]
fn search_with_empty_query_lists_everything() {
    let mut store = Store::new();
    let snapshot = vec![product(1, "B", "b", 1), product(2, "A", "a", 1)];
    assert_eq!(store.replace_products(snapshot), Ok(2));
    assert_eq!(names(&store.search_products("")), vec!["a", "b"]);
}

#[test]
fn search_treats_wildcard_characters_as_text() {
    let mut store = Store::new();
    let snapshot = vec![product(1, "A", "100% juice", 1), product(2, "B", "water", 1)];
    assert_eq!(store.replace_products(snapshot), Ok(2));
    assert_eq!(names(&store.search_products("%")), vec!["100% juice"]);
    assert!(store.search_products("_").is_empty());
}

#[test]
fn search_folds_only_ascii_letters() {
    let mut store = Store::new();
    let snapshot = vec![product(1, "A", "\u{c9}clair", 1), product(2, "B", "\u{e9}clat", 1)];
    assert_eq!(store.replace_products(snapshot), Ok(2));
    assert_eq!(names(&store.search_products("\u{e9}CL")), vec!["\u{e9}clat"]);
    assert_eq!(names(&store.search_products("\u{c9}cl")), vec!["\u{c9}clair"]);
}

#[test]
fn search_hands_back_at_most_fifty() {
    let mut store = Store::new();
    let mut snapshot = Vec::new();
    for i in 0..60 {
        snapshot.push(product(i, &format!("C{:03}", i), &format!("item {:03}", 59 - i), 1));
    }
    assert_eq!(store.replace_products(snapshot), Ok(60));
    let hits = store.search_products("item");
    assert_eq!(hits.len(), 50);
    assert_eq!(hits[0].name, "item 000");
    assert_eq!(hits[49].name, "item 049");
    assert_eq!(store.search_products("item 05").len(), 10);
}

#[test]
fn update_stock_changes_quantity_and_timestamp_of_one_product() {
    let mut store = Store::new();
    let snapshot = vec![product(1, "A", "apple", 100), product(2, "B", "bean", 200)];
    assert_eq!(store.replace_products(snapshot), Ok(2));
    store.update_stock(2, 7500, "2024-02-02 10:00:00".to_string());
    let mut expected = product(2, "B", "bean", 200);
    expected.stock_qty = 7500;
    expected.updated_at = "2024-02-02 10:00:00".to_string();
    assert_eq!(store.get_product_by_code("B"), Some(expected));
    assert_eq!(store.get_product_by_code("A"), Some(product(1, "A", "apple", 100)));
}

#[test]
fn update_stock_of_unknown_product_changes_nothing() {
    let mut store = Store::new();
    assert_eq!(store.replace_products(vec![product(1, "A", "apple", 100)]), Ok(1));
    store.update_stock(99, 5, "2024-02-02 10:00:00".to_string());
    assert_eq!(store.get_all_products(), vec![product(1, "A", "apple", 100)]);
}

#[test]
fn replace_clients_returns_count_and_lists_by_name() {
    let mut store = Store::new();
    let snapshot = vec![client(1, "Zoe"), client(2, "Adam"), client(3, "Mina")];
    assert_eq!(store.replace_clients(snapshot), Ok(3));
    assert_eq!(
        store.get_all_clients(),
        vec![client(2, "Adam"), client(3, "Mina"), client(1, "Zoe")]
    );
}

#[test]
fn replace_clients_with_duplicate_id_keeps_previous_snapshot() {
    let mut store = Store::new();
    assert_eq!(store.replace_clients(vec![client(1, "Zoe")]), Ok(1));
    let bad = vec![client(4, "Adam"), client(4, "Mina")];
    assert_eq!(store.replace_clients(bad), Err(StoreError::TransactionFailure));
    assert_eq!(store.get_all_clients(), vec![client(1, "Zoe")]);
}

#[test]
fn replacing_clients_leaves_products_alone() {
    let mut store = Store::new();
    assert_eq!(store.replace_products(vec![product(1, "A", "apple", 100)]), Ok(1));
    assert_eq!(store.replace_clients(vec![client(1, "Zoe")]), Ok(1));
    assert_eq!(store.products_count(), 1);
}
