//! The arena itself: a buffer of fixed size and a cursor that only moves
//! forward.

use vstd::prelude::*;
use crate::align::{lemma_padding_aligns, padding_at};
use crate::block::Block;
use crate::error::{AllocationError, OutOfMemory};
use crate::history::{
    lemma_blocks_disjoint, lemma_fresh_wf, lemma_grant_keeps_blocks, lemma_grant_keeps_wf,
};
use crate::model::{fresh, ArenaView, Issue};

verus! {

/// A bump allocator over one buffer of fixed size. Requests are served by
/// moving a cursor forward; nothing is ever handed back to the arena.
pub struct Arena {
    base: usize,
    cursor: usize,
    buffer: Vec<u8>,
    issued: Ghost<Seq<Issue>>,
}

impl View for Arena {
    type V = ArenaView;

    closed spec fn view(&self) -> ArenaView {
        ArenaView {
            base: self.base as nat,
            cursor: self.cursor as nat,
            contents: self.buffer@,
            issued: self.issued@,
        }
    }
}

/// The address at which a vector keeps its elements, as `Vec::as_ptr` gives
/// it. Nothing is claimed of the number that comes back.
#[verifier::external_body]
fn buffer_address(buffer: &Vec<u8>) -> (address: usize) {
    buffer.as_ptr() as usize
}

impl Arena {
    /// The invariant that every arena keeps.
    pub open spec fn wf(&self) -> bool {
        self@.wf()
    }

    /// An arena over `buffer`, taken to lie at address `base`, with nothing
    /// issued yet. A buffer longer than `isize::MAX` is refused as a
    /// capacity error; one that would reach past the end of the address
    /// space, as an allocation failure.
    pub fn from_buffer(base: usize, buffer: Vec<u8>) -> (r: Result<Arena, AllocationError>)
        ensures
            match r {
                Ok(arena) => {
                    &&& buffer@.len() <= isize::MAX
                    &&& base + buffer@.len() <= usize::MAX
                    &&& arena.wf()
                    &&& arena@ == fresh(base as nat, buffer@)
                },
                Err(AllocationError::CapacityError) => buffer@.len() > isize::MAX,
                Err(AllocationError::AllocationFailure) => {
                    &&& buffer@.len() <= isize::MAX
                    &&& base + buffer@.len() > usize::MAX
                },
            },
    {
        let capacity: usize = buffer.len();
        if capacity > isize::MAX as usize {
            return Err(AllocationError::CapacityError);
        }
        if capacity > usize::MAX - base {
            return Err(AllocationError::AllocationFailure);
        }
        proof {
            lemma_fresh_wf(base as nat, buffer@);
        }
        Ok(Arena { base, cursor: 0, buffer, issued: Ghost(Seq::empty()) })
    }

    /// An arena of exactly `capacity` bytes with nothing issued yet. A
    /// capacity above `isize::MAX` is a capacity error. Any other capacity
    /// gives an arena unless the memory cannot be had, which is an
    /// allocation failure; an empty arena needs no memory and is always
    /// given.
    pub fn with_capacity(capacity: usize) -> (r: Result<Arena, AllocationError>)
        ensures
            match r {
                Ok(arena) => {
                    &&& capacity <= isize::MAX
                    &&& arena.wf()
                    &&& arena@.capacity() == capacity
                    &&& arena@.cursor == 0
                    &&& arena@.issued.len() == 0
                },
                Err(AllocationError::CapacityError) => capacity > isize::MAX,
                Err(AllocationError::AllocationFailure) => 0 < capacity <= isize::MAX,
            },
    {
        if capacity > isize::MAX as usize {
            return Err(AllocationError::CapacityError);
        }
        let mut buffer: Vec<u8> = Vec::new();
        if capacity > 0 {
            if buffer.try_reserve(capacity).is_err() {
                return Err(AllocationError::AllocationFailure);
            }
            buffer.resize(capacity, 0u8);
        }
        let base: usize = buffer_address(&buffer);
        Arena::from_buffer(base, buffer)
    }

    /// The fixed size of the buffer in bytes.
    pub fn capacity(&self) -> (capacity: usize)
        ensures
            capacity == self@.capacity(),
    {
        self.buffer.len()
    }

    /// The offset of the next unused byte.
    pub fn cursor(&self) -> (cursor: usize)
        ensures
            cursor == self@.cursor,
    {
        self.cursor
    }

    /// The address of the first byte of the buffer.
    pub fn base_address(&self) -> (base: usize)
        ensures
            base == self@.base,
    {
        self.base
    }

    /// The filler bytes that a request of `size` bytes on an `align` boundary
    /// needs now, or `None` if padding and size together do not fit in what
    /// is left. The arena is not changed.
    pub fn padding(&self, size: usize, align: usize) -> (r: Option<usize>)
        requires
            self.wf(),
            align > 0,
        ensures
            match r {
                Some(padding) => {
                    &&& self@.fits(size as nat, align as nat)
                    &&& padding == self@.padding(align as nat)
                },
                None => !self@.fits(size as nat, align as nat),
            },
    {
        let address: usize = self.base + self.cursor;
        let padding: usize = padding_at(address, align);
        let remaining: usize = self.buffer.len() - self.cursor;
        match remaining.checked_sub(padding) {
            None => None,
            Some(room) => if room < size {
                None
            } else {
                Some(padding)
            },
        }
    }

    /// Carves a block of `size` bytes on an `align` boundary out of the
    /// buffer, if padding and size together fit in what is left. The cursor
    /// then moves past the block; the block is aligned and shares no byte
    /// with any block issued before. If the request does not fit, the arena
    /// stays as it was.
    pub fn allocate(&mut self, size: usize, align: usize) -> (r: Result<Block, OutOfMemory>)
        requires
            old(self).wf(),
            align > 0,
        ensures
            final(self).wf(),
            r is Ok <==> old(self)@.fits(size as nat, align as nat),
            match r {
                Ok(block) => {
                    &&& final(self)@ == old(self)@.grant(size as nat, align as nat)
                    &&& block == old(self)@.next_block(size as nat, align as nat)
                    &&& block == final(self)@.block(old(self)@.issued.len() as int)
                    &&& block.size == size
                    &&& block.aligned_to(align as nat)
                    &&& final(self)@.owns(block)
                    &&& forall|i: int|
                        0 <= i < old(self)@.issued.len() ==> {
                            &&& #[trigger] final(self)@.block(i) == old(self)@.block(i)
                            &&& block.disjoint(old(self)@.block(i))
                        }
                },
                Err(_) => final(self)@ == old(self)@,
            },
    {
        let padding: usize = match self.padding(size, align) {
            None => {
                return Err(OutOfMemory);
            },
            Some(padding) => padding,
        };
        let block = Block { address: self.base + self.cursor + padding, size };
        proof {
            let before = self@;
            let after = before.grant(size as nat, align as nat);
            lemma_padding_aligns(before.base + before.cursor, align as nat);
            lemma_grant_keeps_wf(before, size as nat, align as nat);
            assert forall|i: int| 0 <= i < before.issued.len() implies {
                &&& #[trigger] after.block(i) == before.block(i)
                &&& block.disjoint(before.block(i))
            } by {
                lemma_grant_keeps_blocks(before, size as nat, align as nat, i);
                lemma_blocks_disjoint(after, before.issued.len() as int, i);
            }
            self.issued@ = before.issued.push(
                Issue { padding: padding as nat, size: size as nat, align: align as nat },
            );
        }
        self.cursor = self.cursor + padding + size;
        Ok(block)
    }

    /// Releases a block. An arena takes nothing back: it stays exactly as it
    /// was, so every later query and request is answered as if the call had
    /// not been made.
    pub fn deallocate(&mut self, block: Block)
        ensures
            *final(self) == *old(self),
            final(self)@ == old(self)@,
    {
    }

    /// Whether the block lies inside the part of the buffer handed out so
    /// far.
    pub fn owns(&self, block: Block) -> (owned: bool)
        requires
            self.wf(),
        ensures
            owned == self@.owns(block),
    {
        block.address >= self.base && block.size <= self.cursor && block.address - self.base
            <= self.cursor - block.size
    }

    /// Writes `data` over the bytes of a block. This is done, and `true`
    /// returned, exactly if the arena owns the block and `data` is as long as
    /// the block; otherwise nothing changes. No byte outside the block is
    /// touched.
    pub fn store(&mut self, block: Block, data: &[u8]) -> (stored: bool)
        requires
            old(self).wf(),
        ensures
            final(self).wf(),
            stored <==> old(self)@.owns(block) && data@.len() == block.size,
            stored ==> final(self)@ == old(self)@.put(block, data@),
            !stored ==> final(self)@ == old(self)@,
    {
        if !self.owns(block) || data.len() != block.size {
            return false;
        }
        let ghost before = self@;
        let first: usize = block.address - self.base;
        let mut k: usize = 0;
        while k < data.len()
            invariant
                k <= data@.len(),
                first + data@.len() <= self.buffer.len(),
                self.buffer.len() == before.contents.len(),
                self@.base == before.base,
                self@.cursor == before.cursor,
                self@.issued == before.issued,
                forall|j: int|
                    0 <= j < before.contents.len() ==> #[trigger] self.buffer@[j] == (if first
                        <= j < first + k {
                        data@[j - first]
                    } else {
                        before.contents[j]
                    }),
            decreases data@.len() - k,
        {
            self.buffer.set(first + k, data[k]);
            k += 1;
        }
        assert(self@.contents =~= before.put(block, data@).contents);
        true
    }

    /// Reads the bytes of a block, if the arena owns it.
    pub fn load(&self, block: Block) -> (r: Option<Vec<u8>>)
        requires
            self.wf(),
        ensures
            match r {
                Some(bytes) => self@.owns(block) && bytes@ == self@.bytes(block),
                None => !self@.owns(block),
            },
    {
        if !self.owns(block) {
            return None;
        }
        let first: usize = block.address - self.base;
        let mut bytes: Vec<u8> = Vec::new();
        let mut k: usize = 0;
        while k < block.size
            invariant
                k <= block.size,
                first + block.size <= self.buffer.len(),
                bytes@ == self.buffer@.subrange(first as int, first + k),
            decreases block.size - k,
        {
            bytes.push(self.buffer[first + k]);
            assert(bytes@ =~= self.buffer@.subrange(first as int, first + k + 1));
            k += 1;
        }
        Some(bytes)
    }

    /// Whether one value of type `T` can be allocated now.
    pub fn can_fit<T>(&self) -> (fit: bool)
        requires
            self.wf(),
        ensures
            fit == self@.fits(vstd::layout::size_of::<T>(), vstd::layout::align_of::<T>()),
    {
        broadcast use vstd::layout::align_nonzero;

        self.padding(std::mem::size_of::<T>(), std::mem::align_of::<T>()).is_some()
    }

    /// Whether `n` values of type `T`, laid out one after the other, can be
    /// allocated now. A total size that no `usize` holds does not fit.
    pub fn can_fit_slice<T>(&self, n: usize) -> (fit: bool)
        requires
            self.wf(),
        ensures
            fit == self@.fits(
                (n * vstd::layout::size_of::<T>()) as nat,
                vstd::layout::align_of::<T>(),
            ),
    {
        broadcast use vstd::layout::align_nonzero;

        match std::mem::size_of::<T>().checked_mul(n) {
            None => false,
            Some(total) => self.padding(total, std::mem::align_of::<T>()).is_some(),
        }
    }
}

} // verus!
