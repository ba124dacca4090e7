//! Core logic of a small stateless HTTP service: byte-wise arithmetic over
//! fixed-width binary addresses, and parsing plus rendering of a TOML
//! "manifest" payload (a list of orders).

pub mod address;
pub mod decimal;
pub mod manifest;
