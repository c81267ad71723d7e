//! An embeddable key/value store on top of LMDB: typed buckets, scoped
//! transactions and cursors, with the typing layer and the transaction
//! discipline proved against their contracts.

mod config;
mod cursor;
mod engine;
mod error;
mod manager;
mod outside;
mod shared;
mod store;
mod txn;
mod types;

pub use crate::config::{
    declared_flags, Config, DatabaseFlags, DUP_FIXED, DUP_SORT, INTEGER_DUP, INTEGER_KEY,
    NO_SUB_DIR, READ_ONLY, REVERSE_DUP, REVERSE_KEY,
};
pub use crate::cursor::{Cursor, Entry, Iter};
pub use crate::error::KvError;
pub use crate::manager::{compatible, decide_reuse, reuse_of, Handle, Manager, Reuse};
pub use crate::store::{
    bucket_flags, default_name, finish_write, name_view, undeclared_is_unknown, write_outcome,
    Bucket, Store,
};
pub use crate::txn::{set_result, set_then_get, Txn, TxnStatus};
pub use crate::types::{
    integer_bytes, integer_round_trip, integer_value, Integer, Key, Value, ValueMut, ValueRef,
};
