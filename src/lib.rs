//! An in-process call/response bridge between a hosted script engine and
//! native operations: a fixed-width record codec, an op registry with a
//! dispatch bridge, and a driver for deferred operations.

pub mod record;
pub mod state;
pub mod ops;
pub mod isolate;

pub use isolate::Isolate;
pub use record::Record;
