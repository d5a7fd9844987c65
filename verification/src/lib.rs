//! Decision logic of the Rubic Qubic wallet: RANDOM provider sessions and how
//! peers' reports settle them, settling and resending transfers, keeping the
//! peer set within bounds, round-robin polling, the order-book monitor, the
//! statements of the wallet's store, and the checks that guard its HTTP routes.

pub mod text;
pub mod base64_text;
pub mod row;
pub mod hex_text;
pub mod case_text;
pub mod random;
pub mod judge;
pub mod rotation;
pub mod session;
pub mod step;
pub mod session_store;
pub mod records;
pub mod transfer_store;
pub mod qx_store;
pub mod routes;
pub mod api_request;
pub mod monitors;
pub mod book_watch;
pub mod confirm;
pub mod broadcast;
pub mod peer_upkeep;
pub mod tick_watch;
pub mod db_path;
pub mod settings;
