//! Intake and time-windowed storage of help offers.
//!
//! An offer is submitted, held to the rules of intake, given an id and stored
//! in a key-value backend under a key made of the time of the write and the
//! id. The backend drops it 48 hours after its last write. Offers are read
//! back by their key, and the latest of them are listed by reading every key
//! that the backend holds.
//!
//! - `util`, `offer`: the offer and the types it is made of
//! - `api`: the requests and the rules of intake
//! - `key`: the composite storage keys
//! - `listing`: the ranking of the keys from the latest write to the earliest
//! - `store`: the commands for the backend and what its answers mean
//! - `response`: the answers to the caller
//! - `config`: what the service is configured with
//!
//! Nothing here reads a clock, opens a connection or encodes a record: the
//! time, the answers of the backend and the records come in as plain values.

pub mod api;
pub mod config;
pub mod key;
pub mod listing;
pub mod offer;
pub mod response;
pub mod store;
pub mod util;
