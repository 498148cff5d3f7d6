//! Local store of an offline-capable point-of-sale terminal.
//!
//! The terminal mirrors the catalog of a remote authority, queues the sales
//! it records while the link is down, and later reconciles that queue without
//! creating duplicates. Everything here works on plain values; reading and
//! writing durable storage and talking to the network is left to the caller.

pub mod audit;
pub mod catalog;
pub mod error;
pub mod laws;
pub mod model;
pub mod ordered;
pub mod sale;
pub mod settings;
pub mod store;
pub mod sync;
pub mod table;
pub mod text;

pub use audit::SyncLogRecord;
pub use catalog::{Client, Product};
pub use error::{RemoteError, StoreError};
pub use sale::{OfflineSale, SaleStatus};
pub use settings::AppSettings;
pub use store::Store;
pub use sync::SyncPass;
