//! Windowed, shared byte buffers for binary protocol parsing and encoding.
//!
//! A shared buffer lives in an [`Arena`]. A view ([`ROIobuf`] or [`RWIobuf`])
//! names one buffer and carries two nested ranges over it: the limits, the
//! most it may ever touch, and the window, on which its accessors work.
//! Views are cheap to copy; copies address the same bytes.

pub mod arena;
pub mod impls;
pub mod laws;
pub mod prim;
pub mod raw;
pub mod ringbuf;

pub use arena::Arena;
pub use impls::{ROIobuf, RWIobuf};
pub use prim::Prim;
pub use raw::{IobufView, OutOfBounds};
pub use ringbuf::IORingbuf;
