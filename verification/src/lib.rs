//! Addressing of regions in a tiered universe of clusters and chunks.
//!
//! A region is named by one canonical natural number of unbounded size.
//! Two further forms are derived from it and always decode back to it: a
//! variable-width sequence of decimal digit pairs, and a fixed-width string
//! over an alphabet of 57 symbols. The codecs for both forms and the
//! identifiers of chunks and clusters are the heart of the crate.
//!
//! Around them stand the rules of what uses the identifiers: the loading
//! of clusters and games step by step, the books of a manager of games and
//! of a pool of threads, a queue of tasks, and the messages of a networking
//! worker. They are kept free of threads and locks, which their users
//! bring.

pub mod base10x10_codec;
pub mod base57_codec;
pub mod bignum;
pub mod ecs;
pub mod errors;
pub mod example;
pub mod game;
pub mod math;
pub mod networking;
pub mod numeral;
pub mod task;
pub mod thread_pool;
pub mod universe;
pub mod worker;
pub mod workload;
