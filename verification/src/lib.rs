//! A fixed-capacity bump arena: one contiguous buffer from which aligned
//! blocks are carved by advancing a single cursor. Blocks are never taken
//! back one by one; the whole buffer goes when the arena does.

pub mod align;
pub mod arena;
pub mod block;
pub mod error;
pub mod history;
pub mod model;

pub use arena::Arena;
pub use block::Block;
pub use error::{AllocationError, OutOfMemory};
