//! Sales recorded while the terminal is offline, and the states they pass
//! through until the remote authority has taken them.

use vstd::prelude::*;
use crate::ordered::Keyed;
use crate::table::{RowId, UniqueKey};
use crate::text::same_text;

verus! {

/// Lifecycle state of a queued sale. A sale is born pending; a pending sale
/// becomes synced, which it stays for good, or failed; a failed sale becomes
/// pending again only when it is explicitly queued again.
#[derive(Clone, Copy, Debug, PartialEq, Eq, Structural)]
pub enum SaleStatus {
    Pending,
    Synced,
    Failed,
}

/// The text a status is stored under.
pub open spec fn status_text(status: SaleStatus) -> Seq<char> {
    match status {
        SaleStatus::Pending => "pending"@,
        SaleStatus::Synced => "synced"@,
        SaleStatus::Failed => "failed"@,
    }
}

/// The status stored under `text`, if there is one.
pub open spec fn status_of_text(text: Seq<char>) -> Option<SaleStatus> {
    if text == "pending"@ {
        Some(SaleStatus::Pending)
    } else if text == "synced"@ {
        Some(SaleStatus::Synced)
    } else if text == "failed"@ {
        Some(SaleStatus::Failed)
    } else {
        None
    }
}

/// Reading back the text of a status gives that status.
pub proof fn lemma_status_text_round_trip(status: SaleStatus)
    ensures
        status_of_text(status_text(status)) == Some(status),
{
    reveal_strlit("pending");
    reveal_strlit("synced");
    reveal_strlit("failed");
    assert("pending"@.len() == 7);
    assert("synced"@.len() == 6);
    assert("synced"@[0] == 's');
    assert("failed"@[0] == 'f');
}

impl SaleStatus {
    /// The text this status is stored under.
    pub fn as_str(&self) -> (r: &'static str)
        ensures
            r@ == status_text(*self),
    {
        match self {
            SaleStatus::Pending => "pending",
            SaleStatus::Synced => "synced",
            SaleStatus::Failed => "failed",
        }
    }

    /// Reads a stored status back.
    pub fn parse(text: &str) -> (r: Option<SaleStatus>)
        ensures
            r == status_of_text(text@),
    {
        if same_text(text, "pending") {
            Some(SaleStatus::Pending)
        } else if same_text(text, "synced") {
            Some(SaleStatus::Synced)
        } else if same_text(text, "failed") {
            Some(SaleStatus::Failed)
        } else {
            None
        }
    }
}

/// A sale of the offline queue. Amounts are whole numbers of the smallest
/// unit the terminal accounts in. The line items and the tenders are carried
/// as the structured text the remote authority expects.
#[derive(Debug, PartialEq, Eq)]
pub struct OfflineSale {
    /// Assigned by the store when the sale is queued.
    pub id: Option<i64>,
    /// The caller's idempotency key.
    pub local_ref: String,
    pub client_id: Option<i64>,
    pub warehouse_id: i64,
    pub grand_total: i64,
    pub paid_amount: i64,
    pub tax_amount: i64,
    pub discount: i64,
    pub payment_method_id: i64,
    pub details_json: String,
    pub payments_json: String,
    pub status: SaleStatus,
    pub created_at: String,
    pub synced_at: Option<String>,
    pub server_sale_id: Option<i64>,
    pub error_message: Option<String>,
}

impl Clone for OfflineSale {
    fn clone(&self) -> (r: Self)
        ensures
            r == *self,
    {
        OfflineSale {
            id: self.id,
            local_ref: self.local_ref.clone(),
            client_id: self.client_id,
            warehouse_id: self.warehouse_id,
            grand_total: self.grand_total,
            paid_amount: self.paid_amount,
            tax_amount: self.tax_amount,
            discount: self.discount,
            payment_method_id: self.payment_method_id,
            details_json: self.details_json.clone(),
            payments_json: self.payments_json.clone(),
            status: self.status,
            created_at: self.created_at.clone(),
            synced_at: self.synced_at.clone(),
            server_sale_id: self.server_sale_id,
            error_message: self.error_message.clone(),
        }
    }
}

impl Keyed for OfflineSale {
    open spec fn sort_key(&self) -> Seq<char> {
        self.created_at@
    }

    fn key(&self) -> (k: &str) {
        self.created_at.as_str()
    }
}

impl RowId for OfflineSale {
    open spec fn row_id(&self) -> int {
        match self.id {
            Some(n) => n as int,
            None => 0,
        }
    }

    fn id_number(&self) -> (n: i64) {
        match self.id {
            Some(n) => n,
            None => 0,
        }
    }
}

impl UniqueKey for OfflineSale {
    open spec fn unique_key(&self) -> Seq<char> {
        self.local_ref@
    }

    fn unique_text(&self) -> (k: &str) {
        self.local_ref.as_str()
    }
}

impl OfflineSale {
    /// What holds of every sale in the queue: it has a positive id; it
    /// carries a server sale id and a sync time exactly when it is synced;
    /// and a failed sale says why it failed.
    pub open spec fn well_formed(&self) -> bool {
        &&& self.id is Some
        &&& self.id->0 >= 1
        &&& (self.server_sale_id is Some <==> self.status == SaleStatus::Synced)
        &&& (self.synced_at is Some <==> self.status == SaleStatus::Synced)
        &&& (self.status == SaleStatus::Failed ==> self.error_message is Some)
    }

    /// The entry that the queue holds for `sale` once it is recorded under
    /// `id` at time `now`.
    pub open spec fn queued(sale: OfflineSale, id: i64, now: String) -> OfflineSale {
        OfflineSale {
            id: Some(id),
            status: SaleStatus::Pending,
            created_at: now,
            synced_at: None,
            server_sale_id: None,
            error_message: None,
            ..sale
        }
    }

    /// This sale once the remote authority has taken it as `server_sale_id`.
    pub open spec fn synced(self, server_sale_id: i64, now: String) -> OfflineSale {
        OfflineSale {
            status: SaleStatus::Synced,
            synced_at: Some(now),
            server_sale_id: Some(server_sale_id),
            ..self
        }
    }

    /// This sale once an attempt to hand it over has failed.
    pub open spec fn failed(self, message: String) -> OfflineSale {
        OfflineSale { status: SaleStatus::Failed, error_message: Some(message), ..self }
    }

    /// This sale once it waits for another attempt.
    pub open spec fn requeued(self) -> OfflineSale {
        OfflineSale { status: SaleStatus::Pending, ..self }
    }

    /// Decides `well_formed`.
    pub fn check(&self) -> (ok: bool)
        ensures
            ok == self.well_formed(),
    {
        let id_ok = match self.id {
            Some(n) => n >= 1,
            None => false,
        };
        let synced = match self.status {
            SaleStatus::Synced => true,
            _ => false,
        };
        let failed = match self.status {
            SaleStatus::Failed => true,
            _ => false,
        };
        id_ok && self.server_sale_id.is_some() == synced && self.synced_at.is_some() == synced && (
        !failed || self.error_message.is_some())
    }
}

} // verus!
