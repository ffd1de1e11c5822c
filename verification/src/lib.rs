//! Construction of full-fidelity syntax trees: every byte of the source text,
//! whitespace included, is kept in the tree and can be read back from it.
//! Beside the trees stand a few helpers of the build: the plans of the jobs of
//! continuous integration, the collection of results of tasks, and the values
//! that an installer writes into the registry.

pub mod ci;
pub mod future;
pub mod install;
pub mod source;
pub mod token;
pub mod tree;
