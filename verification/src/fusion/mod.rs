//! Expression fusion: the operation registry, the scope that the analyzer
//! builds, the decision where it runs, and the subgraph it becomes.

pub mod density;
pub mod laws;
pub mod py;
pub mod scope;
pub mod subgraph;
pub mod supported_ops;
