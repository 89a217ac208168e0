//! The file manager: categories and destinations, listing parsers, the
//! ordering of listings, and the browsing and transfer state.

pub mod kinds;
pub mod entry;
pub mod listing;
pub mod order;
pub mod cache;
pub mod tray;
pub mod manager;
pub mod pc;
pub mod worker;
pub mod laws;
pub mod filter_laws;
