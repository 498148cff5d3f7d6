//! What holds of the store whatever it went through.

use vstd::prelude::*;
use crate::audit::SyncLogRecord;
use crate::catalog::{matching_products, product_matches, products_valid, Client, Product};
use crate::error::{RemoteError, StoreError};
use crate::model::{pending_rows, StoreState, SEARCH_LIMIT};
use crate::ordered::{lemma_sorted_by_key, ordered, sorted_by_key, Keyed};
use crate::sale::{OfflineSale, SaleStatus};
use crate::sync::{settled, PassState};
use crate::table::{has_key, UniqueKey};
use crate::text::text_le;

verus! {

/// The state a store is in after an operation that `change` describes: the
/// new state, or the state before where the operation was refused.
pub open spec fn state_after(
    before: StoreState,
    change: Result<StoreState, StoreError>,
) -> StoreState {
    match change {
        Ok(next) => next,
        Err(_) => before,
    }
}

/// Queueing is idempotent. When two sales with one idempotency key are
/// queued one after the other, the second is refused as a duplicate and
/// changes nothing, and the queue then holds exactly one sale with that key.
/// This is stated of a store that holds the key already or still has an id
/// to give; a store that has run out of ids queues nothing.
pub proof fn law_enqueue_idempotent(
    store: StoreState,
    first: OfflineSale,
    first_at: String,
    second: OfflineSale,
    second_at: String,
)
    requires
        store.valid(),
        has_key(store.sales, first.local_ref@) || store.last_sale_id < i64::MAX,
        first.local_ref@ == second.local_ref@,
    ensures
        ({
            let once = state_after(store, store.enqueue_sale(first, first_at));
            let twice = once.enqueue_sale(second, second_at);
            &&& twice == Err::<StoreState, StoreError>(StoreError::DuplicateIdempotencyKey)
            &&& state_after(once, twice) == once
            &&& exists|i: int|
                0 <= i < once.sales.len() && #[trigger] once.sales[i].unique_key()
                    == first.local_ref@ && forall|j: int|
                    0 <= j < once.sales.len() && #[trigger] once.sales[j].unique_key()
                        == first.local_ref@ ==> j == i
        }),
{
    let key = first.local_ref@;
    let once = state_after(store, store.enqueue_sale(first, first_at));
    store.lemma_enqueue_sale_valid(first, first_at);
    let i = if has_key(store.sales, key) {
        choose|i: int| 0 <= i < store.sales.len() && #[trigger] store.sales[i].unique_key() == key
    } else {
        store.sales.len() as int
    };
    assert(0 <= i < once.sales.len() && once.sales[i].unique_key() == key);
    assert(has_key(once.sales, second.local_ref@));
    assert forall|j: int|
        0 <= j < once.sales.len() && #[trigger] once.sales[j].unique_key() == key implies j
        == i by {
        if j < i {
            assert(once.sales[j].unique_key() != once.sales[i].unique_key());
        } else if i < j {
            assert(once.sales[i].unique_key() != once.sales[j].unique_key());
        }
    }
}

/// A sale that is queued adds exactly one to the pending sales; a sale that
/// is refused adds none.
pub proof fn law_enqueue_counts_once(store: StoreState, sale: OfflineSale, now: String)
    ensures
        ({
            let change = store.enqueue_sale(sale, now);
            let after = state_after(store, change);
            pending_rows(after.sales).len() == pending_rows(store.sales).len() + if change is Ok {
                1int
            } else {
                0int
            }
        }),
{
    if let Ok(after) = store.enqueue_sale(sale, now) {
        let entry = after.sales.last();
        store.sales.lemma_filter_push(entry, |r: OfflineSale| r.status == SaleStatus::Pending);
    }
}

/// Replacing the products is all or nothing. Where the store refuses a
/// snapshot, which it does exactly when the snapshot cannot be stored, the
/// store is as it was, and a listing shows the products it showed before.
pub proof fn law_failed_replace_keeps_products(store: StoreState, snapshot: Seq<Product>)
    requires
        store.replace_products(snapshot) is Err,
    ensures
        !products_valid(snapshot),
        state_after(store, store.replace_products(snapshot)) == store,
        state_after(store, store.replace_products(snapshot)).all_products()
            == store.all_products(),
{
}

/// The pending sales are listed oldest first: creation times never
/// decrease along the list. The list holds the pending sales of the queue,
/// each once, and nothing else.
pub proof fn law_pending_sales_fifo(store: StoreState)
    ensures
        ordered(store.pending_sales()),
        store.pending_sales().to_multiset() == pending_rows(store.sales).to_multiset(),
        forall|i: int|
            0 <= i < store.pending_sales().len() ==> (#[trigger] store.pending_sales()[i]).status
                == SaleStatus::Pending && store.sales.contains(store.pending_sales()[i]),
        forall|i: int|
            0 <= i < store.sales.len() && (#[trigger] store.sales[i]).status
                == SaleStatus::Pending ==> store.pending_sales().contains(store.sales[i]),
{
    broadcast use vstd::seq_lib::group_to_multiset_ensures;
    broadcast use vstd::seq_lib::group_filter_ensures;

    let pred = |r: OfflineSale| r.status == SaleStatus::Pending;
    let waiting = pending_rows(store.sales);
    let listed = store.pending_sales();
    lemma_sorted_by_key(waiting);
    assert forall|i: int| 0 <= i < listed.len() implies (#[trigger] listed[i]).status
        == SaleStatus::Pending && store.sales.contains(listed[i]) by {
        let e = listed[i];
        assert(listed.contains(e));
        assert(listed.to_multiset().count(e) > 0);
        assert(waiting.to_multiset().count(e) > 0);
        assert(waiting.contains(e));
        let k = choose|k: int| 0 <= k < waiting.len() && waiting[k] == e;
        store.sales.lemma_filter_pred(pred, k);
        store.sales.lemma_filter_contains_rev(pred, e);
    }
    assert forall|i: int|
        0 <= i < store.sales.len() && (#[trigger] store.sales[i]).status
            == SaleStatus::Pending implies listed.contains(store.sales[i]) by {
        let e = store.sales[i];
        store.sales.lemma_filter_contains(pred, i);
        assert(waiting.contains(e));
        assert(waiting.to_multiset().count(e) > 0);
        assert(listed.to_multiset().count(e) > 0);
    }
}

/// In a valid store a sale carries a server sale id exactly when it is
/// synced.
pub proof fn law_server_id_iff_synced(store: StoreState, i: int)
    requires
        store.valid(),
        0 <= i < store.sales.len(),
    ensures
        store.sales[i].server_sale_id is Some <==> store.sales[i].status == SaleStatus::Synced,
{
    assert(store.sales[i].well_formed());
}

/// What a search hands back: products of the store that answer the query,
/// ordered by name, no more of them than `SEARCH_LIMIT` and no more than
/// there are; and, where no more than `SEARCH_LIMIT` products answer the
/// query, exactly those products.
pub proof fn law_search_results(store: StoreState, query: Seq<char>)
    ensures
        ({
            let found = store.search_products(query);
            let hits = matching_products(store.products, query);
            &&& ordered(found)
            &&& found.len() <= SEARCH_LIMIT
            &&& found.len() <= hits.len()
            &&& forall|i: int|
                0 <= i < found.len() ==> product_matches(#[trigger] found[i], query)
                    && store.products.contains(found[i])
            &&& hits.len() <= SEARCH_LIMIT ==> found.to_multiset() == hits.to_multiset()
        }),
{
    broadcast use vstd::seq_lib::group_to_multiset_ensures;
    broadcast use vstd::seq_lib::group_filter_ensures;

    let pred = |p: Product| product_matches(p, query);
    let hits = matching_products(store.products, query);
    let listed = sorted_by_key(hits);
    let found = store.search_products(query);
    lemma_sorted_by_key(hits);
    assert forall|i: int, j: int| 0 <= i <= j < found.len() implies text_le(
        #[trigger] found[i].sort_key(),
        #[trigger] found[j].sort_key(),
    ) by {
        assert(text_le(listed[i].sort_key(), listed[j].sort_key()));
    }
    assert forall|i: int| 0 <= i < found.len() implies product_matches(
        #[trigger] found[i],
        query,
    ) && store.products.contains(found[i]) by {
        let e = found[i];
        assert(e == listed[i]);
        assert(listed.contains(e));
        assert(listed.to_multiset().count(e) > 0);
        assert(hits.to_multiset().count(e) > 0);
        assert(hits.contains(e));
        let k = choose|k: int| 0 <= k < hits.len() && hits[k] == e;
        store.products.lemma_filter_pred(pred, k);
        store.products.lemma_filter_contains_rev(pred, e);
    }
}

/// The only steps a sale's status takes: a pending sale becomes synced or
/// failed, and a failed sale becomes pending again.
pub open spec fn status_step(before: SaleStatus, after: SaleStatus) -> bool {
    match (before, after) {
        (SaleStatus::Pending, SaleStatus::Synced) => true,
        (SaleStatus::Pending, SaleStatus::Failed) => true,
        (SaleStatus::Failed, SaleStatus::Pending) => true,
        _ => false,
    }
}

/// Between two states of the queue every sale kept its place, its id and
/// its idempotency key, its status stayed or took one step, and a sale that
/// was synced was not changed at all.
pub open spec fn keeps_to_steps(before: Seq<OfflineSale>, after: Seq<OfflineSale>) -> bool {
    &&& after.len() == before.len()
    &&& forall|i: int|
        0 <= i < before.len() ==> {
            &&& (#[trigger] after[i]).id == before[i].id
            &&& after[i].local_ref == before[i].local_ref
            &&& after[i].status == before[i].status || status_step(
                before[i].status,
                after[i].status,
            )
            &&& before[i].status == SaleStatus::Synced ==> after[i] == before[i]
        }
}

/// Marking a sale synced or failed and queueing it again keep to the steps
/// of the status, whether the store carries the operation out or refuses
/// it. Only queueing again takes a failed sale back to pending.
pub proof fn law_status_steps(
    store: StoreState,
    id: i64,
    server_sale_id: i64,
    message: String,
    now: String,
)
    ensures
        ({
            let synced = state_after(store, store.mark_synced(id, server_sale_id, now)).sales;
            let failed = state_after(store, store.mark_failed(id, message)).sales;
            let again = state_after(store, store.requeue_sale(id)).sales;
            &&& keeps_to_steps(store.sales, synced)
            &&& keeps_to_steps(store.sales, failed)
            &&& keeps_to_steps(store.sales, again)
            &&& forall|i: int|
                0 <= i < store.sales.len() && (#[trigger] store.sales[i]).status
                    == SaleStatus::Failed ==> synced[i].status == SaleStatus::Failed
                    && failed[i].status == SaleStatus::Failed
        }),
{
}

/// Queueing a sale leaves every sale that is in the queue as it is.
pub proof fn law_enqueue_keeps_queue(store: StoreState, sale: OfflineSale, now: String)
    ensures
        ({
            let after = state_after(store, store.enqueue_sale(sale, now)).sales;
            &&& after.len() >= store.sales.len()
            &&& after.take(store.sales.len() as int) == store.sales
        }),
{
    let after = state_after(store, store.enqueue_sale(sale, now)).sales;
    assert(after.take(store.sales.len() as int) =~= store.sales);
}

/// A store comes back from its rows. Loading the tables of a valid store
/// gives the same store, with the run gate free; so nothing is lost when a
/// store is written out table by table and read in again.
pub proof fn law_restore_gives_store_back(store: StoreState)
    requires
        store.valid(),
    ensures
        StoreState::restored(store.products, store.clients, store.sales, store.sync_log) == Ok::<
            StoreState,
            StoreError,
        >(store.with_gate(false)),
{
}

/// The sync log is append-only: adding a line keeps every line that was
/// there, in its place, and no other operation changes the log.
pub proof fn law_sync_log_append_only(
    store: StoreState,
    record: SyncLogRecord,
    products: Seq<Product>,
    clients: Seq<Client>,
    sale: OfflineSale,
    id: i64,
    server_sale_id: i64,
    qty: i64,
    message: String,
    now: String,
)
    ensures
        store.append_sync_log(record).sync_log.len() == store.sync_log.len() + 1,
        store.append_sync_log(record).sync_log.take(store.sync_log.len() as int)
            == store.sync_log,
        store.append_sync_log(record).sync_log.last() == record,
        state_after(store, store.replace_products(products)).sync_log == store.sync_log,
        state_after(store, store.replace_clients(clients)).sync_log == store.sync_log,
        state_after(store, store.enqueue_sale(sale, now)).sync_log == store.sync_log,
        state_after(store, store.mark_synced(id, server_sale_id, now)).sync_log
            == store.sync_log,
        state_after(store, store.mark_failed(id, message)).sync_log == store.sync_log,
        state_after(store, store.requeue_sale(id)).sync_log == store.sync_log,
        store.update_stock(id, qty, now).sync_log == store.sync_log,
{
    assert(store.sync_log.push(record).take(store.sync_log.len() as int) =~= store.sync_log);
}

/// Whatever the remote authority answers for the current sale of a pass,
/// the pass moves on to its next sale, so that no failure keeps the sales
/// behind it from being tried. The answer touches no sale but the current
/// one, it takes that sale's status along its steps only, and the pass
/// counts one sale more, as failed or not.
pub proof fn law_settle_moves_on(
    store: StoreState,
    pass: PassState,
    outcome: Result<i64, RemoteError>,
    now: String,
)
    requires
        pass.valid(),
        pass.current() is Some,
    ensures
        ({
            let (next_store, next_pass) = settled(store, pass, outcome, now);
            &&& next_pass.queue == pass.queue
            &&& next_pass.cursor == pass.cursor + 1
            &&& next_pass.failures == pass.failures || next_pass.failures == pass.failures + 1
            &&& outcome is Err ==> next_pass.failures == pass.failures + 1
            &&& keeps_to_steps(store.sales, next_store.sales)
            &&& forall|i: int|
                0 <= i < store.sales.len() && (#[trigger] store.sales[i]).id
                    != pass.current()->0.id ==> next_store.sales[i] == store.sales[i]
            &&& next_store.products == store.products
            &&& next_store.clients == store.clients
            &&& next_store.sync_log == store.sync_log
        }),
{
    let id = pass.current()->0.id->0;
    match outcome {
        Ok(server_sale_id) => {
            law_status_steps(store, id, server_sale_id, now, now);
        },
        Err(err) => {
            law_status_steps(store, id, 0, err.text(), now);
        },
    }
}

/// Replacing the products and listing them gives back the snapshot: the
/// same products, each once, now ordered by name.
pub proof fn law_replace_then_list(store: StoreState, snapshot: Seq<Product>)
    requires
        products_valid(snapshot),
    ensures
        store.replace_products(snapshot) is Ok,
        ({
            let listed = state_after(store, store.replace_products(snapshot)).all_products();
            &&& listed.to_multiset() == snapshot.to_multiset()
            &&& listed.len() == snapshot.len()
            &&& ordered(listed)
        }),
{
    lemma_sorted_by_key(snapshot);
}

} // verus!
