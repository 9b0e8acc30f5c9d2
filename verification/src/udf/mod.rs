//! Execution entry points: plan interpretation and the checks, routing and
//! encoding around each kernel dispatch.

pub mod agg_laws;
pub mod common;
pub mod compact;
pub mod compare;
pub mod dt;
pub mod dtw;
pub mod encode_laws;
pub mod fused_expr;
pub mod groupby;
pub mod groupby_agg;
pub mod groupby_encode;
pub mod groupby_keys;
pub mod groupby_laws;
pub mod groupby_plan;
pub mod logical;
pub mod parse_laws;
pub mod predicate;
pub mod rolling;
