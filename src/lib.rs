//! Reference-counted shared ownership with weak observation.
//!
//! A [`SharedHeap`] owns every cell. Strong and weak handles are move-only
//! tokens that name a cell; cloning, downgrading, upgrading and dropping them
//! are explicit operations on the heap, so every count change is visible to
//! the proofs.

pub mod cell;
pub mod laws;

pub use cell::{CellRef, DropEffect, SharedHeap, StrongHandle, WeakHandle};
