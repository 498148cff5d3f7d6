//! The store itself: the tables in memory and the operations on them.

use vstd::prelude::*;
use crate::audit::SyncLogRecord;
use crate::catalog::{check_clients, check_products, select_matching, Client, Product};
use crate::error::StoreError;
use crate::model::{
    carried_out, largest_id, pending_rows, with_failed, with_requeued, with_stock, with_synced,
    StoreState, SEARCH_LIMIT,
};
use crate::ordered::{lemma_sorted_by_key, ordered, sort_by_key};
use crate::sale::{OfflineSale, SaleStatus};
use crate::table::{
    check_ids_distinct, check_keys_distinct, find_id, find_key, has_id, has_key, ids_distinct,
    lemma_row_with_id, lemma_row_with_key, RowId, UniqueKey,
};

verus! {

/// The local store of one terminal.
pub struct Store {
    products: Vec<Product>,
    clients: Vec<Client>,
    sales: Vec<OfflineSale>,
    sync_log: Vec<SyncLogRecord>,
    last_sale_id: i64,
    sync_running: bool,
}

impl View for Store {
    type V = StoreState;

    closed spec fn view(&self) -> StoreState {
        StoreState {
            products: self.products@,
            clients: self.clients@,
            sales: self.sales@,
            sync_log: self.sync_log@,
            last_sale_id: self.last_sale_id,
            sync_running: self.sync_running,
        }
    }
}

impl Store {
    /// The invariant of the store: its tables are valid. Every store that
    /// `new` or `restore` makes satisfies it, and every operation keeps it.
    pub open spec fn wf(&self) -> bool {
        self@.valid()
    }

    /// A store with nothing in it.
    pub fn new() -> (r: Store)
        ensures
            r.wf(),
            r@ == StoreState::empty(),
    {
        Store {
            products: Vec::new(),
            clients: Vec::new(),
            sales: Vec::new(),
            sync_log: Vec::new(),
            last_sale_id: 0,
            sync_running: false,
        }
    }

    /// A store that holds the given rows, as they were loaded from durable
    /// storage. Rows that break a rule of the store (two products with one
    /// code or id, a negative price, two clients with one id, a sale that
    /// is not well formed, two sales with one id or idempotency key) are
    /// refused as a whole.
    pub fn restore(
        products: Vec<Product>,
        clients: Vec<Client>,
        sales: Vec<OfflineSale>,
        sync_log: Vec<SyncLogRecord>,
    ) -> (r: Result<Store, StoreError>)
        ensures
            match r {
                Ok(store) => store.wf() && StoreState::restored(
                    products@,
                    clients@,
                    sales@,
                    sync_log@,
                ) == Ok::<StoreState, StoreError>(store@),
                Err(e) => StoreState::restored(products@, clients@, sales@, sync_log@) == Err::<
                    StoreState,
                    StoreError,
                >(e),
            },
    {
        proof {
            StoreState::lemma_restored_valid(products@, clients@, sales@, sync_log@);
        }
        if !check_products(&products) || !check_clients(&clients) {
            return Err(StoreError::TransactionFailure);
        }
        let mut largest: i64 = 0;
        let mut i: usize = 0;
        while i < sales.len()
            invariant
                0 <= i <= sales.len(),
                forall|k: int| 0 <= k < i ==> (#[trigger] sales[k]).well_formed(),
                largest == largest_id(sales@.take(i as int)),
            decreases sales.len() - i,
        {
            if !sales[i].check() {
                return Err(StoreError::TransactionFailure);
            }
            proof {
                assert(sales@.take(i + 1).drop_last() =~= sales@.take(i as int));
            }
            let id = sales[i].id_number();
            if id > largest {
                largest = id;
            }
            i += 1;
        }
        proof {
            assert(sales@.take(sales@.len() as int) =~= sales@);
        }
        if !check_ids_distinct(&sales) || !check_keys_distinct(&sales) {
            return Err(StoreError::TransactionFailure);
        }
        Ok(Store { products, clients, sales, sync_log, last_sale_id: largest, sync_running: false })
    }

    /// Replaces all products by `snapshot` and returns how many there are.
    /// A snapshot that cannot be stored is refused as a whole and the
    /// products stay as they were.
    pub fn replace_products(&mut self, snapshot: Vec<Product>) -> (r: Result<usize, StoreError>)
        requires
            old(self).wf(),
        ensures
            final(self).wf(),
            carried_out(old(self)@.replace_products(snapshot@), old(self)@, final(self)@, r),
            r matches Ok(n) ==> n == snapshot@.len(),
    {
        if check_products(&snapshot) {
            let n = snapshot.len();
            self.products = snapshot;
            Ok(n)
        } else {
            Err(StoreError::TransactionFailure)
        }
    }

    /// Replaces all clients by `snapshot` and returns how many there are.
    /// A snapshot that cannot be stored is refused as a whole and the
    /// clients stay as they were.
    pub fn replace_clients(&mut self, snapshot: Vec<Client>) -> (r: Result<usize, StoreError>)
        requires
            old(self).wf(),
        ensures
            final(self).wf(),
            carried_out(old(self)@.replace_clients(snapshot@), old(self)@, final(self)@, r),
            r matches Ok(n) ==> n == snapshot@.len(),
    {
        if check_clients(&snapshot) {
            let n = snapshot.len();
            self.clients = snapshot;
            Ok(n)
        } else {
            Err(StoreError::TransactionFailure)
        }
    }

    /// All products, ordered by name. Products with one name come in the
    /// order in which the snapshot held them.
    pub fn get_all_products(&self) -> (r: Vec<Product>)
        ensures
            r@ == self@.all_products(),
            ordered(r@),
            r@.to_multiset() == self@.products.to_multiset(),
    {
        let copy = self.products.clone();
        assert(copy@ =~= self.products@);
        proof {
            lemma_sorted_by_key(self.products@);
        }
        sort_by_key(copy)
    }

    /// All clients, ordered by name. Clients with one name come in the
    /// order in which the snapshot held them.
    pub fn get_all_clients(&self) -> (r: Vec<Client>)
        ensures
            r@ == self@.all_clients(),
            ordered(r@),
            r@.to_multiset() == self@.clients.to_multiset(),
    {
        let copy = self.clients.clone();
        assert(copy@ =~= self.clients@);
        proof {
            lemma_sorted_by_key(self.clients@);
        }
        sort_by_key(copy)
    }

    /// The product that carries `code`, or nothing where no product does.
    pub fn get_product_by_code(&self, code: &str) -> (r: Option<Product>)
        requires
            self.wf(),
        ensures
            r == self@.product_by_code(code@),
            r is Some <==> has_key(self@.products, code@),
            r matches Some(p) ==> p.code@ == code@ && self@.products.contains(p),
    {
        match find_key(&self.products, code) {
            Some(i) => {
                proof {
                    lemma_row_with_key(self.products@, code@, i as int);
                }
                Some(self.products[i].clone())
            },
            None => None,
        }
    }

    /// The products whose name or code contains `query`, the case of ASCII
    /// letters ignored, ordered by name; the first `SEARCH_LIMIT` of them
    /// where there are more.
    pub fn search_products(&self, query: &str) -> (r: Vec<Product>)
        ensures
            r@ == self@.search_products(query@),
            r@.len() <= SEARCH_LIMIT,
    {
        let hits = select_matching(&self.products, query);
        let mut sorted = sort_by_key(hits);
        sorted.truncate(SEARCH_LIMIT);
        sorted
    }

    /// How many products the store holds.
    pub fn products_count(&self) -> (n: usize)
        ensures
            n == self@.products.len(),
    {
        self.products.len()
    }

    /// Sets the stock of product `product_id` to `qty` and stamps the
    /// product with `now`. Where no product has that id nothing changes.
    pub fn update_stock(&mut self, product_id: i64, qty: i64, now: String)
        requires
            old(self).wf(),
        ensures
            final(self).wf(),
            final(self)@ == old(self)@.update_stock(product_id, qty, now),
    {
        proof {
            self@.lemma_update_stock_valid(product_id, qty, now);
        }
        match find_id(&self.products, product_id) {
            Some(i) => {
                self.products[i].stock_qty = qty;
                self.products[i].updated_at = now;
                proof {
                    let before = old(self)@.products;
                    assert forall|k: int| 0 <= k < before.len() && k != i implies (
                    #[trigger] before[k]).id != product_id by {
                        if k < i {
                            assert(before[k].row_id() != before[i as int].row_id());
                        } else {
                            assert(before[i as int].row_id() != before[k].row_id());
                        }
                    }
                    assert(self.products@ =~= with_stock(before, product_id, qty, now));
                }
            },
            None => {
                proof {
                    let before = old(self)@.products;
                    assert forall|k: int| 0 <= k < before.len() implies (#[trigger] before[k]).id
                        != product_id by {
                        assert(before[k].row_id() != product_id);
                    }
                    assert(self.products@ =~= with_stock(before, product_id, qty, now));
                }
            },
        }
    }

    /// Queues `sale` as pending, created at `now`, and returns the id it
    /// was given, which is one more than the last id given. The id, status,
    /// timestamps, server id and error message that `sale` arrives with are
    /// not used. A sale whose idempotency key is already queued, in whatever
    /// state, is refused as a duplicate; a store that has given out its last
    /// id refuses with a transaction failure.
    pub fn enqueue_sale(&mut self, sale: OfflineSale, now: String) -> (r: Result<i64, StoreError>)
        requires
            old(self).wf(),
        ensures
            final(self).wf(),
            carried_out(old(self)@.enqueue_sale(sale, now), old(self)@, final(self)@, r),
            r matches Ok(id) ==> id == old(self)@.last_sale_id + 1,
    {
        proof {
            self@.lemma_enqueue_sale_valid(sale, now);
        }
        if find_key(&self.sales, sale.local_ref.as_str()).is_some() {
            return Err(StoreError::DuplicateIdempotencyKey);
        }
        if self.last_sale_id == i64::MAX {
            return Err(StoreError::TransactionFailure);
        }
        let id = self.last_sale_id + 1;
        let entry = OfflineSale {
            id: Some(id),
            status: SaleStatus::Pending,
            created_at: now,
            synced_at: None,
            server_sale_id: None,
            error_message: None,
            ..sale
        };
        self.sales.push(entry);
        self.last_sale_id = id;
        Ok(id)
    }

    /// The sale with id `id`, or nothing where no sale has it.
    pub fn get_sale(&self, id: i64) -> (r: Option<OfflineSale>)
        requires
            self.wf(),
        ensures
            r == self@.sale_by_id(id),
            r is Some <==> has_id(self@.sales, id as int),
            r matches Some(sale) ==> sale.id == Some(id) && self@.sales.contains(sale),
    {
        match find_id(&self.sales, id) {
            Some(i) => {
                proof {
                    lemma_row_with_id(self.sales@, id as int, i as int);
                }
                Some(self.sales[i].clone())
            },
            None => None,
        }
    }

    /// The pending sales, oldest first. Sales created at one time come in
    /// the order in which they were queued.
    pub fn list_pending_sales(&self) -> (r: Vec<OfflineSale>)
        ensures
            r@ == self@.pending_sales(),
            ordered(r@),
            r@.to_multiset() == pending_rows(self@.sales).to_multiset(),
    {
        proof {
            lemma_sorted_by_key(pending_rows(self.sales@));
        }
        let mut out: Vec<OfflineSale> = Vec::new();
        let mut i: usize = 0;
        proof {
            assert(self.sales@.take(0) =~= Seq::<OfflineSale>::empty());
        }
        while i < self.sales.len()
            invariant
                0 <= i <= self.sales.len(),
                out@ == pending_rows(self.sales@.take(i as int)),
            decreases self.sales.len() - i,
        {
            proof {
                lemma_pending_rows_step(self.sales@, i as int);
            }
            if is_pending(&self.sales[i]) {
                out.push(self.sales[i].clone());
            }
            i += 1;
        }
        proof {
            assert(self.sales@.take(self.sales@.len() as int) =~= self.sales@);
        }
        sort_by_key(out)
    }

    /// How many sales are pending.
    pub fn pending_sales_count(&self) -> (n: usize)
        ensures
            n == pending_rows(self@.sales).len(),
    {
        let mut n: usize = 0;
        let mut i: usize = 0;
        proof {
            assert(self.sales@.take(0) =~= Seq::<OfflineSale>::empty());
        }
        while i < self.sales.len()
            invariant
                0 <= i <= self.sales.len(),
                n <= i,
                n == pending_rows(self.sales@.take(i as int)).len(),
            decreases self.sales.len() - i,
        {
            proof {
                lemma_pending_rows_step(self.sales@, i as int);
            }
            if is_pending(&self.sales[i]) {
                n += 1;
            }
            i += 1;
        }
        proof {
            assert(self.sales@.take(self.sales@.len() as int) =~= self.sales@);
        }
        n
    }

    /// Marks the pending sale `id` synced under `server_sale_id` as of
    /// `now`. Applied again with the same server id it changes nothing. A
    /// sale that is synced under another server id, or that has failed and
    /// was not queued again, is left as it is and the call is refused. Where
    /// no sale has that id nothing changes.
    pub fn mark_synced(&mut self, id: i64, server_sale_id: i64, now: String) -> (r: Result<
        (),
        StoreError,
    >)
        requires
            old(self).wf(),
        ensures
            final(self).wf(),
            carried_out(
                old(self)@.mark_synced(id, server_sale_id, now),
                old(self)@,
                final(self)@,
                r,
            ),
    {
        proof {
            self@.lemma_mark_synced_valid(id, server_sale_id, now);
        }
        let ghost before = self.sales@;
        match find_id(&self.sales, id) {
            Some(i) => {
                proof {
                    lemma_only_row(before, i as int, id);
                }
                match self.sales[i].status {
                    SaleStatus::Pending => {
                        self.sales[i].status = SaleStatus::Synced;
                        self.sales[i].synced_at = Some(now);
                        self.sales[i].server_sale_id = Some(server_sale_id);
                        proof {
                            assert(self.sales@ =~= with_synced(before, id, server_sale_id, now));
                        }
                        Ok(())
                    },
                    SaleStatus::Synced => {
                        if same_number(self.sales[i].server_sale_id, server_sale_id) {
                            proof {
                                assert(self.sales@ =~= with_synced(
                                    before,
                                    id,
                                    server_sale_id,
                                    now,
                                ));
                            }
                            Ok(())
                        } else {
                            proof {
                                assert(before[i as int].id == Some(id));
                            }
                            Err(StoreError::TransactionFailure)
                        }
                    },
                    SaleStatus::Failed => {
                        proof {
                            assert(before[i as int].id == Some(id));
                        }
                        Err(StoreError::TransactionFailure)
                    },
                }
            },
            None => {
                proof {
                    lemma_no_row(before, id);
                    assert(self.sales@ =~= with_synced(before, id, server_sale_id, now));
                }
                Ok(())
            },
        }
    }

    /// Marks the sale `id` failed and stores `message` with it. The sale
    /// stays in the queue. A synced sale is left as it is and the call is
    /// refused. Where no sale has that id nothing changes.
    pub fn mark_failed(&mut self, id: i64, message: String) -> (r: Result<(), StoreError>)
        requires
            old(self).wf(),
        ensures
            final(self).wf(),
            carried_out(old(self)@.mark_failed(id, message), old(self)@, final(self)@, r),
    {
        proof {
            self@.lemma_mark_failed_valid(id, message);
        }
        let ghost before = self.sales@;
        match find_id(&self.sales, id) {
            Some(i) => {
                proof {
                    lemma_only_row(before, i as int, id);
                }
                match self.sales[i].status {
                    SaleStatus::Synced => {
                        proof {
                            assert(before[i as int].id == Some(id));
                        }
                        Err(StoreError::TransactionFailure)
                    },
                    _ => {
                        self.sales[i].status = SaleStatus::Failed;
                        self.sales[i].error_message = Some(message);
                        proof {
                            assert(self.sales@ =~= with_failed(before, id, message));
                        }
                        Ok(())
                    },
                }
            },
            None => {
                proof {
                    lemma_no_row(before, id);
                    assert(self.sales@ =~= with_failed(before, id, message));
                }
                Ok(())
            },
        }
    }

    /// Makes the failed sale `id` pending again, so that the next pass
    /// tries it once more. A pending sale stays as it is. A synced sale is
    /// left as it is and the call is refused. Where no sale has that id
    /// nothing changes.
    pub fn requeue_sale(&mut self, id: i64) -> (r: Result<(), StoreError>)
        requires
            old(self).wf(),
        ensures
            final(self).wf(),
            carried_out(old(self)@.requeue_sale(id), old(self)@, final(self)@, r),
    {
        proof {
            self@.lemma_requeue_sale_valid(id);
        }
        let ghost before = self.sales@;
        match find_id(&self.sales, id) {
            Some(i) => {
                proof {
                    lemma_only_row(before, i as int, id);
                }
                match self.sales[i].status {
                    SaleStatus::Synced => {
                        proof {
                            assert(before[i as int].id == Some(id));
                        }
                        Err(StoreError::TransactionFailure)
                    },
                    SaleStatus::Failed => {
                        self.sales[i].status = SaleStatus::Pending;
                        proof {
                            assert(self.sales@ =~= with_requeued(before, id));
                        }
                        Ok(())
                    },
                    SaleStatus::Pending => {
                        proof {
                            assert(self.sales@ =~= with_requeued(before, id));
                        }
                        Ok(())
                    },
                }
            },
            None => {
                proof {
                    lemma_no_row(before, id);
                    assert(self.sales@ =~= with_requeued(before, id));
                }
                Ok(())
            },
        }
    }

    /// Whether a reconciliation pass holds the run gate.
    pub fn is_sync_running(&self) -> (r: bool)
        ensures
            r == self@.sync_running,
    {
        self.sync_running
    }

    /// Takes the run gate if it is free and says whether it was.
    pub(crate) fn acquire_gate(&mut self) -> (taken: bool)
        requires
            old(self).wf(),
        ensures
            final(self).wf(),
            taken == !old(self)@.sync_running,
            final(self)@ == old(self)@.with_gate(true),
    {
        let taken = !self.sync_running;
        self.sync_running = true;
        taken
    }

    /// Gives the run gate back.
    pub(crate) fn release_gate(&mut self)
        requires
            old(self).wf(),
        ensures
            final(self).wf(),
            final(self)@ == old(self)@.with_gate(false),
    {
        self.sync_running = false;
    }

    /// Adds `record` at the end of the sync log.
    pub fn append_sync_log(&mut self, record: SyncLogRecord)
        requires
            old(self).wf(),
        ensures
            final(self).wf(),
            final(self)@ == old(self)@.append_sync_log(record),
    {
        self.sync_log.push(record);
    }

    /// The sync log, oldest line first.
    pub fn sync_log(&self) -> (r: Vec<SyncLogRecord>)
        ensures
            r@ == self@.sync_log,
    {
        let copy = self.sync_log.clone();
        assert(copy@ =~= self.sync_log@);
        copy
    }
}

/// Whether a sale waits to be handed over.
fn is_pending(sale: &OfflineSale) -> (r: bool)
    ensures
        r == (sale.status == SaleStatus::Pending),
{
    match sale.status {
        SaleStatus::Pending => true,
        _ => false,
    }
}

/// Whether `held` holds exactly `n`.
fn same_number(held: Option<i64>, n: i64) -> (r: bool)
    ensures
        r == (held == Some(n)),
{
    match held {
        Some(m) => m == n,
        None => false,
    }
}

/// In a valid queue the sale found under `id` is the only one with that id.
proof fn lemma_only_row(rows: Seq<OfflineSale>, i: int, id: i64)
    requires
        ids_distinct(rows),
        forall|k: int| 0 <= k < rows.len() ==> (#[trigger] rows[k]).well_formed(),
        0 <= i < rows.len(),
        rows[i].row_id() == id,
    ensures
        rows[i].id == Some(id),
        forall|k: int| 0 <= k < rows.len() && k != i ==> (#[trigger] rows[k]).id != Some(id),
{
    assert(rows[i].well_formed());
    assert forall|k: int| 0 <= k < rows.len() && k != i implies (#[trigger] rows[k]).id != Some(
        id,
    ) by {
        assert(rows[k].well_formed());
        if k < i {
            assert(rows[k].row_id() != rows[i].row_id());
        } else {
            assert(rows[i].row_id() != rows[k].row_id());
        }
    }
}

/// Where no sale is found under `id`, none has that id.
proof fn lemma_no_row(rows: Seq<OfflineSale>, id: i64)
    requires
        !has_id(rows, id as int),
    ensures
        forall|k: int| 0 <= k < rows.len() ==> (#[trigger] rows[k]).id != Some(id),
{
    assert forall|k: int| 0 <= k < rows.len() implies (#[trigger] rows[k]).id != Some(id) by {
        assert(rows[k].row_id() != id);
    }
}

/// How the pending sales among the first `i + 1` come from those among the
/// first `i`.
proof fn lemma_pending_rows_step(rows: Seq<OfflineSale>, i: int)
    requires
        0 <= i < rows.len(),
    ensures
        pending_rows(rows.take(i + 1)) == if rows[i].status == SaleStatus::Pending {
            pending_rows(rows.take(i)).push(rows[i])
        } else {
            pending_rows(rows.take(i))
        },
{
    assert(rows.take(i + 1) =~= rows.take(i).push(rows[i]));
    rows.take(i).lemma_filter_push(rows[i], |r: OfflineSale| r.status == SaleStatus::Pending);
}

} // verus!
