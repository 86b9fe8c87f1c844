//! A two-column nullable integer table, its streaming columnar wire format,
//! and a null-aware filter-then-reduce aggregate over it.
pub mod codec;
pub mod engine;
pub mod error;
pub mod framing;
pub mod producer;
pub mod session;
pub mod table;
