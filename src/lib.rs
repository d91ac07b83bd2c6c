//! Capture-side logic of a live traffic map: frame decoding, address
//! filtering, duplicate suppression, geo-location, interface choice and
//! viewer sessions.
pub mod addr;
pub mod parser;
pub mod filter;
pub mod dedup;
pub mod mmdb;
pub mod geo;
pub mod pipeline;
pub mod interface;
pub mod viewer;
