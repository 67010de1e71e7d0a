//! Blocks: the byte ranges that an arena hands out.

use vstd::prelude::*;

verus! {

/// A contiguous byte range issued by an arena: where it starts and how many
/// bytes it holds.
#[derive(Clone, Copy, Debug, PartialEq, Eq)]
pub struct Block {
    pub address: usize,
    pub size: usize,
}

impl Block {
    /// The address of the block's first byte.
    pub open spec fn start(self) -> int {
        self.address as int
    }

    /// The address just past the block's last byte.
    pub open spec fn end(self) -> int {
        self.address + self.size
    }

    /// Whether the block starts on a multiple of `align`.
    pub open spec fn aligned_to(self, align: nat) -> bool {
        self.address as nat % align == 0
    }

    /// Whether the two blocks share no byte.
    pub open spec fn disjoint(self, other: Block) -> bool {
        self.end() <= other.start() || other.end() <= self.start()
    }
}

} // verus!
