//! The mathematical model of an arena: its base address, its cursor, the
//! bytes it holds, and the record of every block it has issued.

use vstd::prelude::*;
use crate::align::padding_for;
use crate::block::Block;

verus! {

/// One granted request, as the arena records it: the filler bytes skipped to
/// reach the alignment, the bytes handed out, and the alignment asked for.
pub struct Issue {
    pub padding: nat,
    pub size: nat,
    pub align: nat,
}

/// The bytes taken up by a run of granted requests: each one's padding and
/// size, summed.
pub open spec fn consumed(issued: Seq<Issue>) -> nat
    decreases issued.len(),
{
    if issued.len() == 0 {
        0
    } else {
        consumed(issued.drop_last()) + issued.last().padding + issued.last().size
    }
}

/// What an arena is, seen from outside.
pub struct ArenaView {
    /// Address of the first byte of the buffer.
    pub base: nat,
    /// Offset of the next unused byte.
    pub cursor: nat,
    /// The bytes of the buffer.
    pub contents: Seq<u8>,
    /// Every granted request, oldest first.
    pub issued: Seq<Issue>,
}

impl ArenaView {
    /// The fixed size of the buffer in bytes.
    pub open spec fn capacity(self) -> nat {
        self.contents.len()
    }

    /// The cursor as it stood just before request `i` was granted.
    pub open spec fn cursor_before(self, i: int) -> nat {
        consumed(self.issued.take(i))
    }

    /// The block that request `i` was granted.
    pub open spec fn block(self, i: int) -> Block {
        Block {
            address: (self.base + self.cursor_before(i) + self.issued[i].padding) as usize,
            size: self.issued[i].size as usize,
        }
    }

    /// The invariant of every arena: the cursor stays inside the buffer, the
    /// buffer lies inside the address space, the cursor is the sum of what
    /// was granted, and each grant was padded from where the cursor stood.
    pub open spec fn wf(self) -> bool {
        &&& self.cursor <= self.capacity() <= isize::MAX
        &&& self.base + self.capacity() <= usize::MAX
        &&& self.cursor == consumed(self.issued)
        &&& forall|i: int|
            0 <= i < self.issued.len() ==> {
                &&& (#[trigger] self.issued[i]).align > 0
                &&& self.issued[i].padding == padding_for(
                    self.base + self.cursor_before(i),
                    self.issued[i].align,
                )
            }
    }

    /// The filler bytes that a request with this alignment needs now.
    pub open spec fn padding(self, align: nat) -> nat {
        padding_for(self.base + self.cursor, align)
    }

    /// Whether a request fits now: its padding and its size together do not
    /// exceed what is left between the cursor and the end of the buffer.
    pub open spec fn fits(self, size: nat, align: nat) -> bool {
        self.padding(align) + size <= self.capacity() - self.cursor
    }

    /// The block that a fitting request is granted now.
    pub open spec fn next_block(self, size: nat, align: nat) -> Block {
        Block {
            address: (self.base + self.cursor + self.padding(align)) as usize,
            size: size as usize,
        }
    }

    /// The arena after a fitting request was granted.
    pub open spec fn grant(self, size: nat, align: nat) -> ArenaView {
        ArenaView {
            cursor: self.cursor + self.padding(align) + size,
            issued: self.issued.push(Issue { padding: self.padding(align), size, align }),
            ..self
        }
    }

    /// Whether the block lies inside the part of the buffer that has been
    /// handed out so far.
    pub open spec fn owns(self, block: Block) -> bool {
        self.base <= block.start() && block.end() <= self.base + self.cursor
    }

    /// The bytes that the buffer holds in the range of the block.
    pub open spec fn bytes(self, block: Block) -> Seq<u8> {
        self.contents.subrange(block.start() - self.base, block.end() - self.base)
    }

    /// The arena after `data` was written over the range of the block.
    pub open spec fn put(self, block: Block, data: Seq<u8>) -> ArenaView {
        let first = block.start() - self.base;
        ArenaView {
            contents: Seq::new(
                self.contents.len(),
                |k: int|
                    if first <= k < first + data.len() {
                        data[k - first]
                    } else {
                        self.contents[k]
                    },
            ),
            ..self
        }
    }
}

/// An arena that has issued nothing.
pub open spec fn fresh(base: nat, contents: Seq<u8>) -> ArenaView {
    ArenaView { base, cursor: 0, contents, issued: Seq::empty() }
}

} // verus!
