//! Host-side emulation of an edge platform's persistent key-value store:
//! the storage registry with optimistic-concurrency inserts and paginated
//! listing, the per-session handle table, the two-phase (begin/wait)
//! asynchronous operation surface, and the layered error taxonomy.

pub mod adapt;
pub mod cursor;
pub mod errors;
pub mod handle_table;
pub mod keys;
pub mod listing;
pub mod object_store;
pub mod order;
pub mod session;
pub mod task;
