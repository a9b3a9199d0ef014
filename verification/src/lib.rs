//! Ingestion and querying of ledger transactions held in memory.
//!
//! The ingestion loop is a state machine ([`aggregator`]): it is handed the
//! outcome of each request to the ledger and says what to ask for next,
//! filling the record store ([`store`]) on the way. Queries by identifier
//! ([`signature`]) or by day ([`calendar`]) are answered from the store
//! ([`api`]). What holds of whole runs of the loop is proved in [`replay`].

pub mod aggregator;
pub mod api;
pub mod calendar;
pub mod replay;
pub mod signature;
pub mod store;
pub mod transaction_details;
pub mod utils;
