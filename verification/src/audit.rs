//! The append-only record of reconciliation passes.

use vstd::prelude::*;

verus! {

/// One line of the sync log. Lines are only ever added.
#[derive(Debug, PartialEq, Eq)]
pub struct SyncLogRecord {
    pub entity_type: String,
    pub operation: String,
    pub record_count: u64,
    pub status: String,
    pub error_message: Option<String>,
    pub created_at: String,
}

impl Clone for SyncLogRecord {
    fn clone(&self) -> (r: Self)
        ensures
            r == *self,
    {
        SyncLogRecord {
            entity_type: self.entity_type.clone(),
            operation: self.operation.clone(),
            record_count: self.record_count,
            status: self.status.clone(),
            error_message: self.error_message.clone(),
            created_at: self.created_at.clone(),
        }
    }
}

} // verus!
