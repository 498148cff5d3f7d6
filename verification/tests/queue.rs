use vopecs_pos::{OfflineSale, SaleStatus, Store, StoreError};

fn sale(local_ref: &str, grand_total: i64) -> OfflineSale {
    OfflineSale {
        id: None,
        local_ref: local_ref.to_string(),
        client_id: Some(4),
        warehouse_id: 1,
        grand_total,
        paid_amount: grand_total,
        tax_amount: 0,
        discount: 0,
        payment_method_id: 2,
        details_json: "[{\"product_id\":1,\"qty\":2}]".to_string(),
        payments_json: "[{\"method\":2}]".to_string(),
        status: SaleStatus::Pending,
        created_at: String::new(),
        synced_at: None,
        server_sale_id: None,
        error_message: None,
    }
}

fn refs(sales: &[OfflineSale]) -> Vec<String> {
    sales.iter().map(|s| s.local_ref.clone()).collect()
}

#[test]
fn enqueue_stores_a_pending_entry_with_the_given_time() {
    let mut store = Store::new();
    let id = store.enqueue_sale(sale("R-1", 1250), "2024-05-01 09:00:00".to_string());
    assert_eq!(id, Ok(1));
    let mut expected = sale("R-1", 1250);
    expected.id = Some(1);
    expected.created_at = "2024-05-01 09:00:00".to_string();
    assert_eq!(store.get_sale(1), Some(expected.clone()));
    assert_eq!(store.list_pending_sales(), vec![expected]);
}

#[test]
fn enqueue_ignores_state_the_sale_arrives_with() {
    let mut store = Store::new();
    let mut incoming = sale("R-1", 500);
    incoming.id = Some(77);
    incoming.status = SaleStatus::Synced;
    incoming.created_at = "1999-01-01 00:00:00".to_string();
    incoming.synced_at = Some("1999-01-02 00:00:00".to_string());
    incoming.server_sale_id = Some(9);
    incoming.error_message = Some("stale".to_string());
    assert_eq!(store.enqueue_sale(incoming, "2024-05-01 09:00:00".to_string()), Ok(1));
    let stored = store.get_sale(1).unwrap();
    assert_eq!(stored.id, Some(1));
    assert_eq!(stored.status, SaleStatus::Pending);
    assert_eq!(stored.created_at, "2024-05-01 09:00:00");
    assert_eq!(stored.synced_at, None);
    assert_eq!(stored.server_sale_id, None);
    assert_eq!(stored.error_message, None);
    assert_eq!(stored.grand_total, 500);
    assert_eq!(store.get_sale(77), None);
}

#[test]
fn enqueue_gives_consecutive_ids() {
    let mut store = Store::new();
    assert_eq!(store.enqueue_sale(sale("R-1", 1), "t1".to_string()), Ok(1));
    assert_eq!(store.enqueue_sale(sale("R-2", 2), "t2".to_string()), Ok(2));
    assert_eq!(store.enqueue_sale(sale("R-3", 3), "t3".to_string()), Ok(3));
}

#[test]
fn enqueue_same_local_ref_twice_keeps_one_row() {
    let mut store = Store::new();
    assert_eq!(store.enqueue_sale(sale("K", 100), "2024-05-01 09:00:00".to_string()), Ok(1));
    assert_eq!(
        store.enqueue_sale(sale("K", 999), "2024-05-01 09:01:00".to_string()),
        Err(StoreError::DuplicateIdempotencyKey)
    );
    let pending = store.list_pending_sales();
    assert_eq!(pending.len(), 1);
    assert_eq!(pending[0].grand_total, 100);
    assert_eq!(pending[0].created_at, "2024-05-01 09:00:00");
    assert_eq!(store.get_sale(2), None);
}

#[test]
fn enqueue_x1_twice_succeeds_once_and_counts_once() {
    let mut store = Store::new();
    assert_eq!(store.enqueue_sale(sale("W0", 5), "2024-05-01 08:00:00".to_string()), Ok(1));
    let before = store.pending_sales_count();
    let first = store.enqueue_sale(sale("X1", 100), "2024-05-01 09:00:00".to_string());
    let second = store.enqueue_sale(sale("X1", 100), "2024-05-01 09:00:05".to_string());
    assert_eq!(first, Ok(2));
    assert_eq!(second, Err(StoreError::DuplicateIdempotencyKey));
    assert_eq!(store.pending_sales_count(), before + 1);
}

#[test]
fn duplicate_key_is_refused_after_the_first_was_synced() {
    let mut store = Store::new();
    assert_eq!(store.enqueue_sale(sale("K", 1), "t1".to_string()), Ok(1));
    assert_eq!(store.mark_synced(1, 500, "t2".to_string()), Ok(()));
    assert_eq!(
        store.enqueue_sale(sale("K", 1), "t3".to_string()),
        Err(StoreError::DuplicateIdempotencyKey)
    );
    assert_eq!(store.enqueue_sale(sale("k", 1), "t4".to_string()), Ok(2));
}

#[test]
fn pending_sales_are_listed_oldest_first() {
    let mut store = Store::new();
    assert_eq!(store.enqueue_sale(sale("late", 1), "2024-05-01 12:00:00".to_string()), Ok(1));
    assert_eq!(store.enqueue_sale(sale("early", 2), "2024-05-01 08:30:00".to_string()), Ok(2));
    assert_eq!(store.enqueue_sale(sale("noon", 3), "2024-05-01 11:59:59".to_string()), Ok(3));
    assert_eq!(store.enqueue_sale(sale("eve", 4), "2024-04-30 23:00:00".to_string()), Ok(4));
    let pending = store.list_pending_sales();
    assert_eq!(refs(&pending), vec!["eve", "early", "noon", "late"]);
    for pair in pending.windows(2) {
        assert!(pair[0].created_at <= pair[1].created_at);
    }
}

#[test]
fn sales_created_at_the_same_time_keep_queueing_order() {
    let mut store = Store::new();
    assert_eq!(store.enqueue_sale(sale("a", 1), "2024-05-01 09:00:00".to_string()), Ok(1));
    assert_eq!(store.enqueue_sale(sale("b", 1), "2024-05-01 08:00:00".to_string()), Ok(2));
    assert_eq!(store.enqueue_sale(sale("c", 1), "2024-05-01 09:00:00".to_string()), Ok(3));
    assert_eq!(refs(&store.list_pending_sales()), vec!["b", "a", "c"]);
}

#[test]
fn only_pending_sales_are_listed_and_counted() {
    let mut store = Store::new();
    assert_eq!(store.enqueue_sale(sale("a", 1), "t1".to_string()), Ok(1));
    assert_eq!(store.enqueue_sale(sale("b", 1), "t2".to_string()), Ok(2));
    assert_eq!(store.enqueue_sale(sale("c", 1), "t3".to_string()), Ok(3));
    assert_eq!(store.mark_synced(1, 10, "t4".to_string()), Ok(()));
    assert_eq!(store.mark_failed(3, "refused".to_string()), Ok(()));
    assert_eq!(refs(&store.list_pending_sales()), vec!["b"]);
    assert_eq!(store.pending_sales_count(), 1);
}

#[test]
fn mark_synced_sets_status_time_and_server_id() {
    let mut store = Store::new();
    assert_eq!(store.enqueue_sale(sale("a", 700), "2024-05-01 09:00:00".to_string()), Ok(1));
    assert_eq!(store.mark_synced(1, 4242, "2024-05-01 10:00:00".to_string()), Ok(()));
    let mut expected = sale("a", 700);
    expected.id = Some(1);
    expected.created_at = "2024-05-01 09:00:00".to_string();
    expected.status = SaleStatus::Synced;
    expected.synced_at = Some("2024-05-01 10:00:00".to_string());
    expected.server_sale_id = Some(4242);
    assert_eq!(store.get_sale(1), Some(expected));
}

#[test]
fn mark_synced_again_with_same_server_id_changes_nothing() {
    let mut store = Store::new();
    assert_eq!(store.enqueue_sale(sale("a", 700), "t1".to_string()), Ok(1));
    assert_eq!(store.mark_synced(1, 4242, "t2".to_string()), Ok(()));
    let once = store.get_sale(1);
    assert_eq!(store.mark_synced(1, 4242, "t3".to_string()), Ok(()));
    assert_eq!(store.get_sale(1), once);
}

#[test]
fn mark_synced_with_another_server_id_is_refused() {
    let mut store = Store::new();
    assert_eq!(store.enqueue_sale(sale("a", 700), "t1".to_string()), Ok(1));
    assert_eq!(store.mark_synced(1, 4242, "t2".to_string()), Ok(()));
    let once = store.get_sale(1);
    assert_eq!(store.mark_synced(1, 4243, "t3".to_string()), Err(StoreError::TransactionFailure));
    assert_eq!(store.get_sale(1), once);
}

#[test]
fn mark_synced_of_a_failed_sale_is_refused() {
    let mut store = Store::new();
    assert_eq!(store.enqueue_sale(sale("a", 700), "t1".to_string()), Ok(1));
    assert_eq!(store.mark_failed(1, "no route".to_string()), Ok(()));
    let failed = store.get_sale(1);
    assert_eq!(store.mark_synced(1, 4242, "t3".to_string()), Err(StoreError::TransactionFailure));
    assert_eq!(store.get_sale(1), failed);
}

#[test]
fn mark_synced_of_unknown_id_changes_nothing() {
    let mut store = Store::new();
    assert_eq!(store.enqueue_sale(sale("a", 700), "t1".to_string()), Ok(1));
    let before = store.get_sale(1);
    assert_eq!(store.mark_synced(9, 4242, "t2".to_string()), Ok(()));
    assert_eq!(store.mark_synced(0, 4242, "t2".to_string()), Ok(()));
    assert_eq!(store.mark_synced(-1, 4242, "t2".to_string()), Ok(()));
    assert_eq!(store.get_sale(1), before);
    assert_eq!(store.pending_sales_count(), 1);
}

#[test]
fn mark_failed_keeps_the_row_with_its_message() {
    let mut store = Store::new();
    assert_eq!(store.enqueue_sale(sale("a", 700), "2024-05-01 09:00:00".to_string()), Ok(1));
    assert_eq!(store.mark_failed(1, "validation: unknown product".to_string()), Ok(()));
    let mut expected = sale("a", 700);
    expected.id = Some(1);
    expected.created_at = "2024-05-01 09:00:00".to_string();
    expected.status = SaleStatus::Failed;
    expected.error_message = Some("validation: unknown product".to_string());
    assert_eq!(store.get_sale(1), Some(expected));
    assert_eq!(store.pending_sales_count(), 0);
}

#[test]
fn mark_failed_again_replaces_the_message() {
    let mut store = Store::new();
    assert_eq!(store.enqueue_sale(sale("a", 700), "t1".to_string()), Ok(1));
    assert_eq!(store.mark_failed(1, "first".to_string()), Ok(()));
    assert_eq!(store.mark_failed(1, "second".to_string()), Ok(()));
    let stored = store.get_sale(1).unwrap();
    assert_eq!(stored.status, SaleStatus::Failed);
    assert_eq!(stored.error_message, Some("second".to_string()));
}

#[test]
fn mark_failed_of_a_synced_sale_is_refused() {
    let mut store = Store::new();
    assert_eq!(store.enqueue_sale(sale("a", 700), "t1".to_string()), Ok(1));
    assert_eq!(store.mark_synced(1, 4242, "t2".to_string()), Ok(()));
    let synced = store.get_sale(1);
    assert_eq!(store.mark_failed(1, "late".to_string()), Err(StoreError::TransactionFailure));
    assert_eq!(store.get_sale(1), synced);
}

#[test]
fn mark_failed_of_unknown_id_changes_nothing() {
    let mut store = Store::new();
    assert_eq!(store.enqueue_sale(sale("a", 700), "t1".to_string()), Ok(1));
    assert_eq!(store.mark_failed(2, "x".to_string()), Ok(()));
    assert_eq!(store.pending_sales_count(), 1);
}

#[test]
fn failed_sale_stays_failed_until_requeued() {
    let mut store = Store::new();
    assert_eq!(store.enqueue_sale(sale("a", 700), "2024-05-01 09:00:00".to_string()), Ok(1));
    assert_eq!(store.mark_failed(1, "timeout".to_string()), Ok(()));
    assert!(store.list_pending_sales().is_empty());
    assert_eq!(store.requeue_sale(1), Ok(()));
    let stored = store.get_sale(1).unwrap();
    assert_eq!(stored.status, SaleStatus::Pending);
    assert_eq!(stored.error_message, Some("timeout".to_string()));
    assert_eq!(stored.created_at, "2024-05-01 09:00:00");
    assert_eq!(refs(&store.list_pending_sales()), vec!["a"]);
}

#[test]
fn requeue_of_a_pending_sale_changes_nothing() {
    let mut store = Store::new();
    assert_eq!(store.enqueue_sale(sale("a", 700), "t1".to_string()), Ok(1));
    let before = store.get_sale(1);
    assert_eq!(store.requeue_sale(1), Ok(()));
    assert_eq!(store.get_sale(1), before);
}

#[test]
fn requeue_of_a_synced_sale_is_refused() {
    let mut store = Store::new();
    assert_eq!(store.enqueue_sale(sale("a", 700), "t1".to_string()), Ok(1));
    assert_eq!(store.mark_synced(1, 1, "t2".to_string()), Ok(()));
    assert_eq!(store.requeue_sale(1), Err(StoreError::TransactionFailure));
    assert_eq!(store.get_sale(1).unwrap().status, SaleStatus::Synced);
}

#[test]
fn requeue_of_unknown_id_changes_nothing() {
    let mut store = Store::new();
    assert_eq!(store.requeue_sale(5), Ok(()));
    assert_eq!(store.pending_sales_count(), 0);
}

#[test]
fn server_sale_id_is_set_exactly_on_synced_sales() {
    let mut store = Store::new();
    for (i, key) in ["a", "b", "c", "d", "e"].iter().enumerate() {
        assert_eq!(store.enqueue_sale(sale(key, 1), format!("t{}", i)), Ok(i as i64 + 1));
    }
    assert_eq!(store.mark_synced(1, 100, "s1".to_string()), Ok(()));
    assert_eq!(store.mark_failed(2, "bad".to_string()), Ok(()));
    assert_eq!(store.mark_failed(3, "bad".to_string()), Ok(()));
    assert_eq!(store.requeue_sale(3), Ok(()));
    assert_eq!(store.mark_synced(3, 101, "s2".to_string()), Ok(()));
    assert_eq!(store.mark_synced(2, 102, "s3".to_string()), Err(StoreError::TransactionFailure));
    assert_eq!(store.mark_failed(4, "bad".to_string()), Ok(()));
    assert_eq!(store.requeue_sale(4), Ok(()));
    for id in 1..=5 {
        let stored = store.get_sale(id).unwrap();
        assert_eq!(stored.server_sale_id.is_some(), stored.status == SaleStatus::Synced);
        assert_eq!(stored.synced_at.is_some(), stored.status == SaleStatus::Synced);
    }
    assert_eq!(store.get_sale(1).unwrap().status, SaleStatus::Synced);
    assert_eq!(store.get_sale(2).unwrap().status, SaleStatus::Failed);
    assert_eq!(store.get_sale(3).unwrap().status, SaleStatus::Synced);
    assert_eq!(store.get_sale(4).unwrap().status, SaleStatus::Pending);
    assert_eq!(store.get_sale(5).unwrap().status, SaleStatus::Pending);
}

#[test]
fn get_sale_reports_absence_as_none() {
    let store = Store::new();
    assert_eq!(store.get_sale(1), None);
    assert_eq!(store.get_sale(0), None);
}

#[test]
fn status_text_round_trip() {
    for status in [SaleStatus::Pending, SaleStatus::Synced, SaleStatus::Failed] {
        assert_eq!(SaleStatus::parse(status.as_str()), Some(status));
    }
    assert_eq!(SaleStatus::Pending.as_str(), "pending");
    assert_eq!(SaleStatus::Synced.as_str(), "synced");
    assert_eq!(SaleStatus::Failed.as_str(), "failed");
}

#[test]
fn status_parse_refuses_other_text() {
    assert_eq!(SaleStatus::parse(""), None);
    assert_eq!(SaleStatus::parse("Pending"), None);
    assert_eq!(SaleStatus::parse("pending "), None);
    assert_eq!(SaleStatus::parse("done"), None);
}

#[test]
fn store_error_messages() {
    assert_eq!(StoreError::DuplicateIdempotencyKey.message(), "duplicate idempotency key");
    assert_eq!(StoreError::TransactionFailure.message(), "transaction failure");
}
