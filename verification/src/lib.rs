//! A lazy-sequence adapter that yields the items of a source while a predicate
//! holds, together with the first item on which the predicate fails, and then
//! stops for good.
//!
//! [`model`] says what that means on sequences and proves the laws of it;
//! [`adapter`] is the iterator, whose `next` is one step of the model.
pub mod model;
pub mod adapter;

pub use adapter::{TakeWhileWithFailure, TakeWhileWithFailureIterator};
