//! A verified embedded key-value store with ordered iteration, point-in-time
//! snapshots, atomic write batches and transactions.
//!
//! The store keeps its entries sorted by byte-lexicographic key order, which
//! is what gives iterators their traversal order. Every public operation
//! carries a contract over a mathematical view of the data: a store is a map
//! from byte keys to byte values, a write batch is the sequence of staged
//! operations, and a transaction is its base map together with the log of
//! staged operations.

mod assoc;
mod bytes;
mod db;
mod env;
mod error;
mod iterator;
mod laws;
mod ops;
mod options;
mod order;
mod snapshot;
mod store;
mod transaction;
mod transaction_db;
mod write_batch;

pub use assoc::{assoc_lookup, keys_unique};
pub use bytes::{escaped_byte, escaped_bytes, formatted_slice, format_slice, hex_digit, Bytes, Slice};
pub use db::{read_result, DB};
pub use env::Env;
pub use error::Error;
pub use iterator::Iterator;
pub use laws::{lemma_begin_like_fresh, lemma_commit_visibility, lemma_get_unwritten, lemma_other_keys_unchanged, lemma_put_get_round_trip, lemma_snapshot_isolation};
pub use options::{effective_map, FlushOptions, Options, ReadOptions, WriteOptions};
pub use ops::{apply_op, apply_ops, last_op_for, ops_view};
pub use order::lex_lt;
pub use snapshot::{BorrowedSnapshot, NullSnapshot, OwnedSnapshot, Snapshot};
pub use store::{in_range, kvs_to_map, map_in_range, map_lookup, opt_bytes, range_filtered, sorted_kvs, Store};
pub use transaction::{OldTransaction, Transaction, TransactionError};
pub use transaction_db::{TransactionDB, TransactionDBOptions, TransactionOptions};
pub use write_batch::WriteBatch;
