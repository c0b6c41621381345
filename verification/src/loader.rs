//! Policy loaders: which model family a checkpoint is of, which of its files are captured, the
//! identity that is taken of them, and how each family's policy is built.
pub mod bound;
pub mod identity;
pub mod options;
pub mod policy;
pub mod source;
