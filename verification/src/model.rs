//! The store as a mathematical value: its tables, what must hold of them,
//! and what every operation reads from them or makes of them.

use vstd::prelude::*;
use crate::audit::SyncLogRecord;
use crate::catalog::{clients_valid, matching_products, products_valid, Client, Product};
use crate::error::StoreError;
use crate::ordered::sorted_by_key;
use crate::sale::{OfflineSale, SaleStatus};
use crate::table::{
    has_key, ids_distinct, keys_distinct, row_with_id, row_with_key, RowId, UniqueKey,
};

verus! {

/// The largest number of products a search hands back.
pub const SEARCH_LIMIT: usize = 50;

/// The tables of a store. Rows stand in the order in which they came in.
pub struct StoreState {
    pub products: Seq<Product>,
    pub clients: Seq<Client>,
    pub sales: Seq<OfflineSale>,
    pub sync_log: Seq<SyncLogRecord>,
    /// The largest id ever given to a sale; 0 while none pre given.
    pub last_sale_id: i64,
    /// Whether a reconciliation pass holds the store's run gate.
    pub sync_running: bool,
}

/// The first `n` elements of `s`, or all of `s` where it has no more.
pub open spec fn first_n<T>(s: Seq<T>, n: int) -> Seq<T> {
    if s.len() <= n {
        s
    } else {
        s.take(n)
    }
}

/// The sales of `s` that wait to be handed over, in the order they have in `s`.
pub open spec fn pending_rows(s: Seq<OfflineSale>) -> Seq<OfflineSale> {
    s.filter(|r: OfflineSale| r.status == SaleStatus::Pending)
}

/// What must hold of the sales of a queue: every sale is well formed, no
/// two share an id, no two share an idempotency key.
pub open spec fn rows_valid(sales: Seq<OfflineSale>) -> bool {
    &&& forall|i: int| 0 <= i < sales.len() ==> (#[trigger] sales[i]).well_formed()
    &&& ids_distinct(sales)
    &&& keys_distinct(sales)
}

/// What must hold of the queue: its sales are valid, and the last id given
/// is the largest id among them. Sales never leave the queue, so the
/// largest id in it is the last that was given.
pub open spec fn queue_valid(sales: Seq<OfflineSale>, last_sale_id: i64) -> bool {
    &&& rows_valid(sales)
    &&& last_sale_id == largest_id(sales)
}

/// The largest id among `sales`; 0 where there is none.
pub open spec fn largest_id(sales: Seq<OfflineSale>) -> int
    decreases sales.len(),
{
    if sales.len() == 0 {
        0
    } else if largest_id(sales.drop_last()) >= sales.last().row_id() {
        largest_id(sales.drop_last())
    } else {
        sales.last().row_id()
    }
}

/// No id among `sales` exceeds `largest_id`, which is an id of the queue or 0.
pub proof fn lemma_largest_id(sales: Seq<OfflineSale>)
    ensures
        0 <= largest_id(sales) <= i64::MAX,
        forall|i: int| 0 <= i < sales.len() ==> (#[trigger] sales[i]).row_id() <= largest_id(sales),
    decreases sales.len(),
{
    if sales.len() > 0 {
        lemma_largest_id(sales.drop_last());
        assert forall|i: int| 0 <= i < sales.len() implies (#[trigger] sales[i]).row_id()
            <= largest_id(sales) by {
            if i < sales.len() - 1 {
                assert(sales.drop_last()[i] == sales[i]);
            }
        }
    }
}

/// Queues whose sales agree in their ids, place by place, have the same
/// largest id.
pub proof fn lemma_largest_id_kept(before: Seq<OfflineSale>, after: Seq<OfflineSale>)
    requires
        after.len() == before.len(),
        forall|i: int| 0 <= i < before.len() ==> (#[trigger] after[i]).id == before[i].id,
    ensures
        largest_id(after) == largest_id(before),
    decreases before.len(),
{
    if before.len() > 0 {
        assert(after.last().id == before.last().id);
        assert forall|i: int| 0 <= i < before.drop_last().len() implies (
        #[trigger] after.drop_last()[i]).id == before.drop_last()[i].id by {
            assert(after[i].id == before[i].id);
        }
        lemma_largest_id_kept(before.drop_last(), after.drop_last());
    }
}

/// A sale in this state cannot be marked synced under `server_sale_id`: it
/// is synced under another id, or it has failed and pre not queued again.
pub open spec fn blocks_sync(row: OfflineSale, server_sale_id: i64) -> bool {
    match row.status {
        SaleStatus::Pending => false,
        SaleStatus::Synced => row.server_sale_id != Some(server_sale_id),
        SaleStatus::Failed => true,
    }
}

/// `rows` with the pending sale `id`, if there is one, marked synced.
pub open spec fn with_synced(
    rows: Seq<OfflineSale>,
    id: i64,
    server_sale_id: i64,
    now: String,
) -> Seq<OfflineSale> {
    rows.map_values(
        |r: OfflineSale|
            if r.id == Some(id) && r.status == SaleStatus::Pending {
                r.synced(server_sale_id, now)
            } else {
                r
            },
    )
}

/// `rows` with the sale `id`, if there is one and it is not synced, marked
/// failed with `message`.
pub open spec fn with_failed(rows: Seq<OfflineSale>, id: i64, message: String) -> Seq<
    OfflineSale,
> {
    rows.map_values(
        |r: OfflineSale|
            if r.id == Some(id) && r.status != SaleStatus::Synced {
                r.failed(message)
            } else {
                r
            },
    )
}

/// `rows` with the failed sale `id`, if there is one, pending again.
pub open spec fn with_requeued(rows: Seq<OfflineSale>, id: i64) -> Seq<OfflineSale> {
    rows.map_values(
        |r: OfflineSale|
            if r.id == Some(id) && r.status == SaleStatus::Failed {
                r.requeued()
            } else {
                r
            },
    )
}

/// `rows` with the stock of product `product_id`, if there is one, set to
/// `qty` as of `now`.
pub open spec fn with_stock(rows: Seq<Product>, product_id: i64, qty: i64, now: String) -> Seq<
    Product,
> {
    rows.map_values(
        |p: Product|
            if p.id == product_id {
                Product { stock_qty: qty, updated_at: now, ..p }
            } else {
                p
            },
    )
}

/// Some sale `id` is synced.
pub open spec fn has_synced(rows: Seq<OfflineSale>, id: i64) -> bool {
    exists|i: int|
        0 <= i < rows.len() && (#[trigger] rows[i]).id == Some(id) && rows[i].status
            == SaleStatus::Synced
}

/// Some sale `id` cannot be marked synced under `server_sale_id`.
pub open spec fn has_sync_block(rows: Seq<OfflineSale>, id: i64, server_sale_id: i64) -> bool {
    exists|i: int|
        0 <= i < rows.len() && (#[trigger] rows[i]).id == Some(id) && blocks_sync(
            rows[i],
            server_sale_id,
        )
}

/// An operation that `change` describes took the store from `before` to
/// `after` and told its caller `told`: where `change` is a new state, the
/// store is in it and the caller pre told of success; where `change` is a
/// refusal, the caller pre told exactly that and the store is as before.
pub open spec fn carried_out<T>(
    change: Result<StoreState, StoreError>,
    before: StoreState,
    after: StoreState,
    told: Result<T, StoreError>,
) -> bool {
    match change {
        Ok(next) => told is Ok && after == next,
        Err(e) => told == Err::<T, StoreError>(e) && after == before,
    }
}

impl StoreState {
    /// The store with nothing in it.
    pub open spec fn empty() -> StoreState {
        StoreState {
            products: Seq::empty(),
            clients: Seq::empty(),
            sales: Seq::empty(),
            sync_log: Seq::empty(),
            last_sale_id: 0,
            sync_running: false,
        }
    }

    /// The store that holds the given rows, as after loading them from
    /// durable storage, or a refusal where they could not all be stored.
    pub open spec fn restored(
        products: Seq<Product>,
        clients: Seq<Client>,
        sales: Seq<OfflineSale>,
        sync_log: Seq<SyncLogRecord>,
    ) -> Result<StoreState, StoreError> {
        if products_valid(products) && clients_valid(clients) && rows_valid(sales) {
            Ok(
                StoreState {
                    products,
                    clients,
                    sales,
                    sync_log,
                    last_sale_id: largest_id(sales) as i64,
                    sync_running: false,
                },
            )
        } else {
            Err(StoreError::TransactionFailure)
        }
    }

    /// What holds of every store: product codes and ids are unique and
    /// prices are not negative; client ids are unique; and the queue is
    /// valid.
    pub open spec fn valid(self) -> bool {
        &&& products_valid(self.products)
        &&& clients_valid(self.clients)
        &&& queue_valid(self.sales, self.last_sale_id)
    }

    /// All products, ordered by name.
    pub open spec fn all_products(self) -> Seq<Product> {
        sorted_by_key(self.products)
    }

    /// All clients, ordered by name.
    pub open spec fn all_clients(self) -> Seq<Client> {
        sorted_by_key(self.clients)
    }

    /// The product that carries `code`, if there is one.
    pub open spec fn product_by_code(self, code: Seq<char>) -> Option<Product> {
        row_with_key(self.products, code)
    }

    /// The sale with id `id`, if there is one.
    pub open spec fn sale_by_id(self, id: i64) -> Option<OfflineSale> {
        row_with_id(self.sales, id as int)
    }

    /// The products that answer `query`, ordered by name, cut off after
    /// `SEARCH_LIMIT` of them.
    pub open spec fn search_products(self, query: Seq<char>) -> Seq<Product> {
        first_n(sorted_by_key(matching_products(self.products, query)), SEARCH_LIMIT as int)
    }

    /// The pending sales, oldest first.
    pub open spec fn pending_sales(self) -> Seq<OfflineSale> {
        sorted_by_key(pending_rows(self.sales))
    }

    /// Puts `snapshot` in the place of all products, or refuses a snapshot
    /// that could not be stored.
    pub open spec fn replace_products(self, snapshot: Seq<Product>) -> Result<
        StoreState,
        StoreError,
    > {
        if products_valid(snapshot) {
            Ok(StoreState { products: snapshot, ..self })
        } else {
            Err(StoreError::TransactionFailure)
        }
    }

    /// Puts `snapshot` in the place of all clients, or refuses a snapshot
    /// that could not be stored.
    pub open spec fn replace_clients(self, snapshot: Seq<Client>) -> Result<
        StoreState,
        StoreError,
    > {
        if clients_valid(snapshot) {
            Ok(StoreState { clients: snapshot, ..self })
        } else {
            Err(StoreError::TransactionFailure)
        }
    }

    /// Queues `sale` as pending under the next id, created at `now`. A sale
    /// whose idempotency key is already queued is refused as a duplicate;
    /// when no id is left the store refuses.
    pub open spec fn enqueue_sale(self, sale: OfflineSale, now: String) -> Result<
        StoreState,
        StoreError,
    > {
        if has_key(self.sales, sale.local_ref@) {
            Err(StoreError::DuplicateIdempotencyKey)
        } else if self.last_sale_id >= i64::MAX {
            Err(StoreError::TransactionFailure)
        } else {
            let id = (self.last_sale_id + 1) as i64;
            Ok(
                StoreState {
                    sales: self.sales.push(OfflineSale::queued(sale, id, now)),
                    last_sale_id: id,
                    ..self
                },
            )
        }
    }

    /// Marks the pending sale `id` synced under `server_sale_id` as of
    /// `now`. A sale already synced under the same id stays as it is; one
    /// synced under another id, or failed, makes the store refuse. Where no
    /// sale has that id nothing changes.
    pub open spec fn mark_synced(self, id: i64, server_sale_id: i64, now: String) -> Result<
        StoreState,
        StoreError,
    > {
        if has_sync_block(self.sales, id, server_sale_id) {
            Err(StoreError::TransactionFailure)
        } else {
            Ok(StoreState { sales: with_synced(self.sales, id, server_sale_id, now), ..self })
        }
    }

    /// Marks the sale `id` failed with `message`. A synced sale makes the
    /// store refuse. Where no sale has that id nothing changes.
    pub open spec fn mark_failed(self, id: i64, message: String) -> Result<StoreState, StoreError> {
        if has_synced(self.sales, id) {
            Err(StoreError::TransactionFailure)
        } else {
            Ok(StoreState { sales: with_failed(self.sales, id, message), ..self })
        }
    }

    /// Makes the failed sale `id` pending again. A synced sale makes the
    /// store refuse; a pending sale stays as it is. Where no sale has that
    /// id nothing changes.
    pub open spec fn requeue_sale(self, id: i64) -> Result<StoreState, StoreError> {
        if has_synced(self.sales, id) {
            Err(StoreError::TransactionFailure)
        } else {
            Ok(StoreState { sales: with_requeued(self.sales, id), ..self })
        }
    }

    /// Sets the stock of product `product_id` to `qty` as of `now`. Where no
    /// product has that id nothing changes.
    pub open spec fn update_stock(self, product_id: i64, qty: i64, now: String) -> StoreState {
        StoreState { products: with_stock(self.products, product_id, qty, now), ..self }
    }

    /// Adds `record` at the end of the sync log.
    pub open spec fn append_sync_log(self, record: SyncLogRecord) -> StoreState {
        StoreState { sync_log: self.sync_log.push(record), ..self }
    }

    /// The store while a reconciliation pass holds the run gate, or not.
    pub open spec fn with_gate(self, held: bool) -> StoreState {
        StoreState { sync_running: held, ..self }
    }

    /// A store made of rows that can be stored is valid.
    pub proof fn lemma_restored_valid(
        products: Seq<Product>,
        clients: Seq<Client>,
        sales: Seq<OfflineSale>,
        sync_log: Seq<SyncLogRecord>,
    )
        ensures
            StoreState::restored(products, clients, sales, sync_log) matches Ok(after)
                ==> after.valid(),
    {
        lemma_largest_id(sales);
    }

    /// A valid store stays valid when a sale is queued.
    pub proof fn lemma_enqueue_sale_valid(self, sale: OfflineSale, now: String)
        requires
            self.valid(),
        ensures
            self.enqueue_sale(sale, now) matches Ok(after) ==> after.valid(),
    {
        if let Ok(after) = self.enqueue_sale(sale, now) {
            let pre = self.sales;
            let post = after.sales;
            let n = pre.len() as int;
            lemma_largest_id(pre);
            assert(post.drop_last() =~= pre);
            assert forall|i: int| 0 <= i < post.len() implies (
            #[trigger] post[i]).well_formed() by {
                if i < n {
                    assert(pre[i].well_formed());
                }
            }
            assert forall|i: int, j: int|
                0 <= i < j < post.len() implies #[trigger] post[i].row_id()
                != #[trigger] post[j].row_id() by {
                if j < n {
                    assert(pre[i].row_id() != pre[j].row_id());
                }
            }
            assert forall|i: int, j: int|
                0 <= i < j < post.len() implies #[trigger] post[i].unique_key()
                != #[trigger] post[j].unique_key() by {
                if j < n {
                    assert(pre[i].unique_key() != pre[j].unique_key());
                } else {
                    assert(pre[i].unique_key() != sale.local_ref@);
                }
            }
        }
    }

    /// A valid store stays valid when a sale is marked synced.
    pub proof fn lemma_mark_synced_valid(self, id: i64, server_sale_id: i64, now: String)
        requires
            self.valid(),
        ensures
            self.mark_synced(id, server_sale_id, now) matches Ok(after) ==> after.valid(),
    {
        if let Ok(after) = self.mark_synced(id, server_sale_id, now) {
            assert forall|i: int| 0 <= i < self.sales.len() implies (
            #[trigger] after.sales[i]).well_formed() by {
                assert(self.sales[i].well_formed());
            }
            lemma_queue_stays_valid(self.sales, after.sales, self.last_sale_id);
        }
    }

    /// A valid store stays valid when a sale is marked failed.
    pub proof fn lemma_mark_failed_valid(self, id: i64, message: String)
        requires
            self.valid(),
        ensures
            self.mark_failed(id, message) matches Ok(after) ==> after.valid(),
    {
        if let Ok(after) = self.mark_failed(id, message) {
            assert forall|i: int| 0 <= i < self.sales.len() implies (
            #[trigger] after.sales[i]).well_formed() by {
                assert(self.sales[i].well_formed());
            }
            lemma_queue_stays_valid(self.sales, after.sales, self.last_sale_id);
        }
    }

    /// A valid store stays valid when a sale is queued again.
    pub proof fn lemma_requeue_sale_valid(self, id: i64)
        requires
            self.valid(),
        ensures
            self.requeue_sale(id) matches Ok(after) ==> after.valid(),
    {
        if let Ok(after) = self.requeue_sale(id) {
            assert forall|i: int| 0 <= i < self.sales.len() implies (
            #[trigger] after.sales[i]).well_formed() by {
                assert(self.sales[i].well_formed());
            }
            lemma_queue_stays_valid(self.sales, after.sales, self.last_sale_id);
        }
    }

    /// A valid store stays valid when the stock of a product is set.
    pub proof fn lemma_update_stock_valid(self, product_id: i64, qty: i64, now: String)
        requires
            self.valid(),
        ensures
            self.update_stock(product_id, qty, now).valid(),
    {
        let pre = self.products;
        let post = self.update_stock(product_id, qty, now).products;
        assert forall|i: int, j: int| 0 <= i < j < post.len() implies #[trigger] post[i].row_id()
            != #[trigger] post[j].row_id() by {
            assert(pre[i].row_id() != pre[j].row_id());
        }
        assert forall|i: int, j: int|
            0 <= i < j < post.len() implies #[trigger] post[i].unique_key()
            != #[trigger] post[j].unique_key() by {
            assert(pre[i].unique_key() != pre[j].unique_key());
        }
        assert forall|i: int| 0 <= i < post.len() implies (#[trigger] post[i]).price >= 0 by {
            assert(pre[i].price >= 0);
        }
    }
}

/// A valid queue stays valid when its sales keep their places, their ids
/// and their idempotency keys and stay well formed.
pub proof fn lemma_queue_stays_valid(
    before: Seq<OfflineSale>,
    after: Seq<OfflineSale>,
    last_sale_id: i64,
)
    requires
        queue_valid(before, last_sale_id),
        after.len() == before.len(),
        forall|i: int| 0 <= i < before.len() ==> (#[trigger] after[i]).well_formed(),
        forall|i: int| 0 <= i < before.len() ==> (#[trigger] after[i]).id == before[i].id,
        forall|i: int|
            0 <= i < before.len() ==> (#[trigger] after[i]).local_ref == before[i].local_ref,
    ensures
        queue_valid(after, last_sale_id),
{
    lemma_largest_id_kept(before, after);
    assert forall|i: int, j: int| 0 <= i < j < after.len() implies #[trigger] after[i].row_id()
        != #[trigger] after[j].row_id() by {
        assert(before[i].row_id() != before[j].row_id());
    }
    assert forall|i: int, j: int| 0 <= i < j < after.len() implies #[trigger] after[i].unique_key()
        != #[trigger] after[j].unique_key() by {
        assert(before[i].unique_key() != before[j].unique_key());
    }
}

} // verus!
