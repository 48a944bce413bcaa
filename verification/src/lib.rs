//! A reverse-mode automatic-differentiation engine over integer
//! tensors, verified with Verus.
//!
//! The crate records a directed acyclic graph of tensor operations as
//! they are invoked, replays it forward to produce values and backward
//! to produce gradients, and proves the bookkeeping correct: which
//! edges a forward step runs (exactly the unexecuted ones reachable
//! from the requested sinks, in a dependency-respecting order, each at
//! most once), what forward and backward do to the shared store (a
//! fold of exact per-operation semantics), how gradients accumulate
//! across shared subgraphs, and what `zero_grad` keeps and clears.
//!
//! Scalar cells are `i64` with wrapping arithmetic, so every kernel
//! has an exact, total specification. Parallel elementwise execution
//! and random initialization call outside crates through thin trusted
//! wrappers; everything else is verified.

pub mod autograd;
pub mod context;
pub mod datasets;
pub mod dtype;
pub mod errors;
pub mod fn_edge;
pub mod graph;
pub mod laws;
pub mod logger;
pub mod machine_config;
pub mod nten;
pub mod nten2d;
pub mod optimizer;
pub mod raw_bool;
pub mod raw_dense;
pub mod rng;
pub mod storage;
pub mod table;
pub mod tensor;
pub mod tensor2d;
pub mod varstore;
