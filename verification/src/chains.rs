//! Chain-specific ingestion and the records it produces.

pub mod run;
pub mod solana;
pub mod types;
