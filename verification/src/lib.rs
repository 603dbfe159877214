//! Ingestion of balance-changing ledger activity: signature pagination,
//! balance extraction, record assembly and notification dispatch.

pub mod chains;
pub mod db;
pub mod dispatch;
pub mod ledger;
pub mod rpc_client;
