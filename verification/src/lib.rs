//! Key-value files and append-only log files kept in SQLite databases.
//!
//! A key-value file acts like a `BTreeMap<String, String>` on disk, a log
//! file like an append-only `Vec` of text elements, each stamped with a
//! ULID. `model` says what SQLite answers for such a file, and `laws`
//! proves what each operation's plan gives, and leaves of the file, where
//! SQLite answers so.
use vstd::prelude::*;

pub mod db;
pub mod error;
pub mod ids;
pub mod kv;
pub mod laws;
pub mod log;
pub mod log_index;
pub mod model;
pub mod plan;
pub mod text;

pub use kv::{Kv, KvCursor};
pub use log::{Element, Log, LogCursor};

verus! {

} // verus!
