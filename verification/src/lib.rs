//! A checkpoint and replay decorator for forward-only iterators.
//!
//! [`RestorableIter`] wraps any iterator and adds two operations: `save` marks
//! a point in the sequence, `restore` rewinds to it. Everything handed out
//! between the two is handed out once more, in the same order, before fresh
//! items resume.
pub mod state;
pub mod laws;
pub mod wrapper;

pub use wrapper::Restorable;
pub use wrapper::RestorableIter;
pub use state::IterState;
