//! Polling and reconciliation core of a laundry-room monitor: endpoint
//! identities and their URLs, content-derived machine identifiers, the
//! decisions of the scrape tasks and of the ingestion router, and the startup
//! pass that finds which configured locations and rooms the store lacks.

pub mod config;
pub mod db;
pub mod endpoint;
pub mod equality;
pub mod idset;
pub mod models;
pub mod pep;
pub mod reconcile;
pub mod router;
pub mod scrape;
pub mod url;
