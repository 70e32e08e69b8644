//! Graph SLAM back end: the factor graph and the bookkeeping of a
//! Gauss-Newton optimizer over it.
//!
//! Every real number is carried as the bit pattern of an IEEE-754 binary64
//! value in a `u64`. The crate never interprets such a word: it stores it,
//! hands it out and decides where it belongs. The arithmetic on the numbers
//! is the caller's.

pub mod factor_graph;
pub mod optimizer;
pub mod visualizer;
