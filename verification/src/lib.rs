//! Content-addressed memoization of smart-contract bytecode analysis.
//!
//! Large batches of bytecode are run through a slow analysis that may hang or
//! crash; every result, also every failure, is kept in a persistent cache
//! under a key derived from the bytecode, so that no input is analysed twice.
//!
//! This library holds the rules of that pipeline, each with its contract:
//!
//! - [`cache`]: key derivation, the cache counters, and what the cache makes
//!   of the answers of its backing store;
//! - [`types`], [`decoded`], [`convert`]: the stored result, the decoded
//!   interface it is made from, and the conversion between them;
//! - [`processor`], [`storage`]: what is decided for one work item, and the
//!   watchdog of the storage phase;
//! - [`parquet_reader`]: from the columns of an input unit to work items;
//! - [`stream_processor`], [`seen`]: the stages of a run and the ingestion
//!   with its set of seen bytecodes;
//! - [`stats`]: the counters of a run and its summaries;
//! - [`encoding`], [`text`]: hexadecimal text and small helpers.
//!
//! Files, the backing store, threads, timers and the analysis itself belong to
//! the program that uses the library. It performs each step and hands the
//! library how the step ended.

pub mod cache;
pub mod convert;
pub mod decoded;
pub mod encoding;
pub mod parquet_reader;
pub mod processor;
pub mod seen;
pub mod stats;
pub mod storage;
pub mod stream_processor;
pub mod text;
pub mod types;
