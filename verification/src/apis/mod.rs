//! Provider adapters and the ledger client's logical model.

pub mod bulkvs;
pub mod database;
pub mod sherlock;
pub mod snusbase;

pub use bulkvs::BulkVS;
pub use database::NocoDB;
pub use sherlock::Sherlock;
pub use snusbase::Snusbase;
