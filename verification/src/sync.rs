//! Reconciliation of the offline queue with the remote authority.
//!
//! A pass takes the pending sales, oldest first, and hands each of them to
//! the remote authority once. The caller does the handing over; the pass
//! says which sale is next and records what came of it. A sale that fails
//! does not stop the pass, and a pass may be finished before it has gone
//! through all its sales. When the pass is finished one line goes to the
//! sync log. While a pass is under way no second pass can begin.

use vstd::prelude::*;
use vstd::string::StringExecFns;
use crate::audit::SyncLogRecord;
use crate::error::{store_error_text, RemoteError};
use crate::laws::law_pending_sales_fifo;
use crate::model::StoreState;
use crate::sale::OfflineSale;
use crate::store::Store;
use crate::table::RowId;

verus! {

/// A reconciliation pass that is under way.
pub struct SyncPass {
    queue: Vec<OfflineSale>,
    cursor: usize,
    failures: usize,
    last_error: Option<String>,
}

/// A pass as a mathematical value.
pub struct PassState {
    /// The sales the pass set out to hand over, oldest first.
    pub queue: Seq<OfflineSale>,
    /// How many of them it has gone through.
    pub cursor: int,
    /// How many of those were not taken.
    pub failures: int,
    /// Why the last of those was not taken.
    pub last_error: Option<Seq<char>>,
}

/// The characters of a text that may be absent.
pub open spec fn text_of(held: Option<String>) -> Option<Seq<char>> {
    match held {
        Some(s) => Some(s@),
        None => None,
    }
}

impl PassState {
    /// What holds of every pass: it has gone through no more sales than it
    /// has, no more of them failed than it went through, and each of its
    /// sales has an id.
    pub open spec fn valid(self) -> bool {
        &&& 0 <= self.failures <= self.cursor <= self.queue.len()
        &&& forall|i: int| 0 <= i < self.queue.len() ==> (#[trigger] self.queue[i]).id is Some
    }

    /// A pass over `queue` that has gone through nothing yet.
    pub open spec fn begun(queue: Seq<OfflineSale>) -> PassState {
        PassState { queue, cursor: 0, failures: 0, last_error: None }
    }

    /// The sale to hand over next, if any is left.
    pub open spec fn current(self) -> Option<OfflineSale> {
        if 0 <= self.cursor < self.queue.len() {
            Some(self.queue[self.cursor])
        } else {
            None
        }
    }

    /// The pass after its current sale was taken.
    pub open spec fn after_success(self) -> PassState {
        PassState { cursor: self.cursor + 1, ..self }
    }

    /// The pass after its current sale was not taken because of `why`.
    pub open spec fn after_failure(self, why: Seq<char>) -> PassState {
        PassState {
            cursor: self.cursor + 1,
            failures: self.failures + 1,
            last_error: Some(why),
            ..self
        }
    }

    /// How the pass went as a whole: `success` where no sale failed, `failed`
    /// where every sale it went through failed, `partial` otherwise.
    pub open spec fn status(self) -> Seq<char> {
        if self.failures == 0 {
            "success"@
        } else if self.failures == self.cursor {
            "failed"@
        } else {
            "partial"@
        }
    }

    /// `record` is the line that sums this pass up as of `now`.
    pub open spec fn summed_up_by(self, record: SyncLogRecord, now: String) -> bool {
        &&& record.entity_type@ == "offline_sales"@
        &&& record.operation@ == "sync"@
        &&& record.record_count == self.cursor
        &&& record.status@ == self.status()
        &&& text_of(record.error_message) == self.last_error
        &&& record.created_at == now
    }
}

/// What becomes of a store and a pass when the remote authority has answered
/// `outcome` for the pass's current sale at time `now`. A sale that was
/// taken is marked synced; one that was not is marked failed with the reason
/// given. Where the store refuses the mark the sale counts as failed for the
/// pass. Either way the pass moves on to its next sale. A pass with no sale
/// left changes nothing.
pub open spec fn settled(
    store: StoreState,
    pass: PassState,
    outcome: Result<i64, RemoteError>,
    now: String,
) -> (StoreState, PassState) {
    match pass.current() {
        None => (store, pass),
        Some(sale) => match outcome {
            Ok(server_sale_id) => match store.mark_synced(sale.id->0, server_sale_id, now) {
                Ok(next) => (next, pass.after_success()),
                Err(e) => (store, pass.after_failure(store_error_text(e))),
            },
            Err(err) => match store.mark_failed(sale.id->0, err.text()) {
                Ok(next) => (next, pass.after_failure(err.text()@)),
                Err(_) => (store, pass.after_failure(err.text()@)),
            },
        },
    }
}

impl View for SyncPass {
    type V = PassState;

    closed spec fn view(&self) -> PassState {
        PassState {
            queue: self.queue@,
            cursor: self.cursor as int,
            failures: self.failures as int,
            last_error: text_of(self.last_error),
        }
    }
}

impl SyncPass {
    /// The invariant of a pass. Every pass that `begin` makes satisfies it,
    /// and `settle` keeps it.
    pub open spec fn wf(&self) -> bool {
        self@.valid()
    }

    /// Begins a pass over the sales that are pending now, oldest first, and
    /// takes the run gate of the store. Where another pass holds it, none
    /// begins and the store stays as it is.
    pub fn begin(store: &mut Store) -> (r: Option<SyncPass>)
        requires
            old(store).wf(),
        ensures
            final(store).wf(),
            match r {
                Some(pass) => {
                    &&& !old(store)@.sync_running
                    &&& pass.wf()
                    &&& pass@ == PassState::begun(old(store)@.pending_sales())
                    &&& final(store)@ == old(store)@.with_gate(true)
                },
                None => old(store)@.sync_running && final(store)@ == old(store)@,
            },
    {
        if store.is_sync_running() {
            return None;
        }
        let queue = store.list_pending_sales();
        proof {
            law_pending_sales_fifo(store@);
            assert forall|i: int| 0 <= i < queue@.len() implies (
            #[trigger] queue@[i]).id is Some by {
                let e = queue@[i];
                assert(store@.sales.contains(e));
                let k = choose|k: int| 0 <= k < store@.sales.len() && store@.sales[k] == e;
                assert(store@.sales[k].well_formed());
            }
        }
        store.acquire_gate();
        Some(SyncPass { queue, cursor: 0, failures: 0, last_error: None })
    }

    /// The sale to hand to the remote authority next, or nothing when the
    /// pass has gone through all its sales.
    pub fn current(&self) -> (r: Option<&OfflineSale>)
        ensures
            match r {
                Some(sale) => self@.current() == Some(*sale),
                None => self@.current() is None,
            },
    {
        if self.cursor < self.queue.len() {
            Some(&self.queue[self.cursor])
        } else {
            None
        }
    }

    /// How many sales the pass has gone through.
    pub fn processed(&self) -> (n: usize)
        ensures
            n == self@.cursor,
    {
        self.cursor
    }

    /// How many of the sales the pass went through were not taken.
    pub fn failures(&self) -> (n: usize)
        ensures
            n == self@.failures,
    {
        self.failures
    }

    /// Records what the remote authority answered for the current sale, at
    /// time `now`, and moves on to the next one. Says whether there was a
    /// current sale.
    pub fn settle(
        &mut self,
        store: &mut Store,
        outcome: Result<i64, RemoteError>,
        now: String,
    ) -> (r: bool)
        requires
            old(self).wf(),
            old(store).wf(),
        ensures
            final(self).wf(),
            final(store).wf(),
            r == old(self)@.current() is Some,
            (final(store)@, final(self)@) == settled(old(store)@, old(self)@, outcome, now),
    {
        if self.cursor >= self.queue.len() {
            return false;
        }
        let id = self.queue[self.cursor].id_number();
        match outcome {
            Ok(server_sale_id) => {
                match store.mark_synced(id, server_sale_id, now) {
                    Ok(()) => {},
                    Err(e) => {
                        self.failures = self.failures + 1;
                        self.last_error = Some(e.message());
                    },
                }
            },
            Err(err) => {
                let message = err.into_message();
                let why = message.clone();
                let _ = store.mark_failed(id, message);
                self.failures = self.failures + 1;
                self.last_error = Some(why);
            },
        }
        self.cursor = self.cursor + 1;
        true
    }

    /// Ends the pass at time `now`: adds the line that sums it up to the
    /// sync log, gives the run gate back, and returns that line. The line
    /// counts the sales the pass went through, which are all its sales
    /// unless it is ended early.
    pub fn finish(self, store: &mut Store, now: String) -> (r: SyncLogRecord)
        requires
            self.wf(),
            old(store).wf(),
        ensures
            final(store).wf(),
            self@.summed_up_by(r, now),
            final(store)@ == old(store)@.append_sync_log(r).with_gate(false),
    {
        let status = if self.failures == 0 {
            String::from_str("success")
        } else if self.failures == self.cursor {
            String::from_str("failed")
        } else {
            String::from_str("partial")
        };
        let record = SyncLogRecord {
            entity_type: String::from_str("offline_sales"),
            operation: String::from_str("sync"),
            record_count: self.cursor as u64,
            status,
            error_message: self.last_error,
            created_at: now,
        };
        let copy = record.clone();
        store.append_sync_log(record);
        store.release_gate();
        copy
    }
}

} // verus!
