//! A single-user project/task tracker whose durable state is an append-only
//! log of entries. This crate holds the verified core: the textual wire
//! format of log entries (encode/decode with a proved round trip) and the
//! deterministic replay engine that folds an ordered entry sequence into
//! project state.

pub mod chars;
pub mod commands;
pub mod context;
pub mod date;
pub mod db;
pub mod entry;
pub mod error;
pub mod item;
pub mod num;
