//! Shared ownership of values in a heap, by counted handles.
//!
//! A [`Heap`] holds blocks. An [`Arc`] is a strong handle to a block with one value, an
//! [`ArcSlice`] one to a block of values; [`Weak`] and [`WeakSlice`] are their weak counterparts.
//! Handles are plain pointers, so that every operation that looks at a block takes the heap. The
//! memory of a block is asked of an allocator, an [`IAlloc`], which the block keeps until it gives
//! the memory back.
//!
//! The contracts speak of a heap as the sequence of its blocks (see [`model`]), and say of each
//! operation which event it is (see [`events`]). What an operation comes to for the blocks and the
//! counts is in [`effects`], how values and allocators end in [`discard`], what operations keep
//! between them in [`laws`], and what the counts guard between threads, and within which limits, in
//! [`interleaving`].
pub mod allocator;
pub mod arc;
pub mod compare;
pub mod counter;
pub mod discard;
pub mod effects;
pub mod events;
pub mod heap;
pub mod interleaving;
pub mod laws;
pub mod layout;
pub mod model;
pub mod show;
pub mod slice;
pub mod vec;
pub mod weak;

pub use crate::allocator::{DefaultAllocator, IAlloc};
pub use crate::arc::Arc;
pub use crate::counter::{Counter, USIZE_TOP_BIT};
pub use crate::heap::{AllocPtr, Grant, Heap};
pub use crate::layout::Layout;
pub use crate::show::Piece;
pub use crate::slice::{AllocSlice, ArcSlice, WeakSlice};
pub use crate::weak::Weak;
