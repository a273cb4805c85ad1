//! A semigroup over the standard containers: one associative operation,
//! [`SemiGroup::add`], which builds a new container out of two that it only
//! reads.
//!
//! Sequences (`Vec`, `VecDeque`, `String`) are joined end to end; sets
//! (`HashSet`, `BTreeSet`) are united. Elements are carried over by `clone`,
//! so every contract is stated twice: for any element type, in terms of
//! [`cloned`](vstd::pervasive::cloned), and, where cloning gives back an equal
//! value, as an equation between views.

pub mod contract;
mod extension;
pub mod hashed;
pub mod laws;
pub mod ordered;
pub mod sequence;
pub mod text;

pub use contract::SemiGroup;
