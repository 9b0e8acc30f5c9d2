//! The verified core of a GPU engine for Polars on Apple Silicon: buffer and
//! bitmap handling, dictionary encoding, plan parsing, routing, expression
//! fusion, and the checks, decisions and encodings around every kernel.
//!
//! Devices, kernels and Python objects stay outside. The library takes plain
//! values and returns plain values: what to dispatch, on which bytes, and what
//! to raise.

pub mod alignment;
pub mod arena;
pub mod bridge;
pub mod bytes;
pub mod complaints;
pub mod corr;
pub mod dict;
pub mod error;
pub mod fft;
pub mod fields;
pub mod fusion;
pub mod null_bitmap;
pub mod plan;
pub mod router;
pub mod router_udf;
pub mod staging;
pub mod text;
pub mod udf;
pub mod vector_search;
pub mod wire;

pub use alignment::{is_aligned, is_page_aligned};
pub use arena::{BumpArena, ScratchArena, StubArena};
pub use error::{BufferError, EngineError};
pub use null_bitmap::{count_valid, get_valid, load_chunk_8, set_valid, validity_bytes};
pub use staging::StagingPool;
pub use udf::groupby_plan::{
    parse_groupby_plan, GroupByParseError, ParsedAgg, ParsedGroupByPlan, ParsedKey,
};
