//! What holds of the blocks an arena has issued, whatever was asked of it:
//! they lie inside the buffer, they are aligned as requested, and no two of
//! them share a byte.

use vstd::prelude::*;
use crate::align::lemma_padding_aligns;
use crate::block::Block;
use crate::model::{consumed, fresh, ArenaView, Issue};

verus! {

/// A request for a block: how many bytes, and on what boundary.
pub struct Request {
    pub size: nat,
    pub align: nat,
}

/// Granting one more request adds its padding and its size to the total.
pub proof fn lemma_consumed_step(issued: Seq<Issue>, i: int)
    requires
        0 <= i < issued.len(),
    ensures
        consumed(issued.take(i + 1)) == consumed(issued.take(i)) + issued[i].padding
            + issued[i].size,
{
    let longer = issued.take(i + 1);
    assert(longer.drop_last() =~= issued.take(i));
    assert(longer.last() == issued[i]);
}

/// The running total never shrinks as more requests are counted.
pub proof fn lemma_consumed_monotonic(issued: Seq<Issue>, i: int, j: int)
    requires
        0 <= i <= j <= issued.len(),
    ensures
        consumed(issued.take(i)) <= consumed(issued.take(j)),
    decreases j - i,
{
    if i < j {
        lemma_consumed_step(issued, j - 1);
        lemma_consumed_monotonic(issued, i, j - 1);
    }
}

/// An arena that has issued nothing is well formed as soon as its buffer
/// lies inside the address space.
pub proof fn lemma_fresh_wf(base: nat, contents: Seq<u8>)
    requires
        contents.len() <= isize::MAX,
        base + contents.len() <= usize::MAX,
    ensures
        fresh(base, contents).wf(),
{
}

/// Granting a request that fits keeps the arena well formed, and the block
/// handed out is the one recorded last.
pub proof fn lemma_grant_keeps_wf(v: ArenaView, size: nat, align: nat)
    requires
        v.wf(),
        align > 0,
        v.fits(size, align),
    ensures
        v.grant(size, align).wf(),
        v.grant(size, align).block(v.issued.len() as int) == v.next_block(size, align),
{
    let w = v.grant(size, align);
    let n = v.issued.len() as int;
    assert(w.issued.drop_last() =~= v.issued);
    assert(w.issued.take(n) =~= v.issued);
    assert forall|i: int| 0 <= i < w.issued.len() implies {
        &&& (#[trigger] w.issued[i]).align > 0
        &&& w.issued[i].padding == crate::align::padding_for(
            w.base + w.cursor_before(i),
            w.issued[i].align,
        )
    } by {
        if i < n {
            assert(w.issued.take(i) =~= v.issued.take(i));
            assert(w.issued[i] == v.issued[i]);
        }
    }
}

/// Granting a request leaves every block issued before it where it was.
pub proof fn lemma_grant_keeps_blocks(v: ArenaView, size: nat, align: nat, i: int)
    requires
        0 <= i < v.issued.len(),
    ensures
        v.grant(size, align).block(i) == v.block(i),
{
    let w = v.grant(size, align);
    assert(w.issued.take(i) =~= v.issued.take(i));
}

/// The sum of padding and size over everything an arena has granted is its
/// cursor, and never exceeds its capacity; the same holds of the sum over
/// the first `k` grants, which is where the cursor stood after them.
pub proof fn lemma_total_within_capacity(v: ArenaView, k: int)
    requires
        v.wf(),
        0 <= k <= v.issued.len(),
    ensures
        consumed(v.issued) == v.cursor,
        v.cursor <= v.capacity(),
        v.cursor_before(k) <= v.cursor,
        k < v.issued.len() ==> v.cursor_before(k + 1) == v.cursor_before(k)
            + v.issued[k].padding + v.issued[k].size,
{
    let n = v.issued.len() as int;
    assert(v.issued.take(n) =~= v.issued);
    lemma_consumed_monotonic(v.issued, k, n);
    if k < n {
        lemma_consumed_step(v.issued, k);
    }
}

/// Every issued block starts where the cursor stood plus its padding, ends
/// where the cursor went, and lies inside the used part of the buffer.
pub proof fn lemma_block_within_buffer(v: ArenaView, i: int)
    requires
        v.wf(),
        0 <= i < v.issued.len(),
    ensures
        v.block(i).start() == v.base + v.cursor_before(i) + v.issued[i].padding,
        v.block(i).size == v.issued[i].size,
        v.block(i).end() == v.base + v.cursor_before(i + 1),
        v.base <= v.block(i).start(),
        v.block(i).end() <= v.base + v.cursor,
        v.block(i).end() <= v.base + v.capacity(),
{
    lemma_total_within_capacity(v, i);
    lemma_total_within_capacity(v, i + 1);
}

/// Every issued block starts on a multiple of the alignment it was
/// requested with.
pub proof fn lemma_block_aligned(v: ArenaView, i: int)
    requires
        v.wf(),
        0 <= i < v.issued.len(),
    ensures
        v.block(i).aligned_to(v.issued[i].align),
{
    lemma_block_within_buffer(v, i);
    lemma_padding_aligns(v.base + v.cursor_before(i), v.issued[i].align);
}

/// Two different blocks issued by one arena share no byte.
pub proof fn lemma_blocks_disjoint(v: ArenaView, i: int, j: int)
    requires
        v.wf(),
        0 <= i < v.issued.len(),
        0 <= j < v.issued.len(),
        i != j,
    ensures
        v.block(i).disjoint(v.block(j)),
{
    lemma_block_within_buffer(v, i);
    lemma_block_within_buffer(v, j);
    if i < j {
        lemma_consumed_monotonic(v.issued, i + 1, j);
    } else {
        lemma_consumed_monotonic(v.issued, j + 1, i);
    }
}

/// The arena after a run of requests was granted, one after the other.
pub open spec fn serve(v: ArenaView, requests: Seq<Request>) -> ArenaView
    decreases requests.len(),
{
    if requests.len() == 0 {
        v
    } else {
        serve(v, requests.drop_last()).grant(requests.last().size, requests.last().align)
    }
}

/// Whether every request of a run fits at the moment it is made.
pub open spec fn all_fit(v: ArenaView, requests: Seq<Request>) -> bool
    decreases requests.len(),
{
    requests.len() == 0 || {
        &&& all_fit(v, requests.drop_last())
        &&& requests.last().align > 0
        &&& serve(v, requests.drop_last()).fits(requests.last().size, requests.last().align)
    }
}

/// However many requests an arena grants in a row, it stays well formed: its
/// base and its buffer are the same, it has recorded one grant per request,
/// and its cursor is the sum of padding and size over all its grants, which
/// does not exceed the capacity.
pub proof fn lemma_serve_keeps_wf(v: ArenaView, requests: Seq<Request>)
    requires
        v.wf(),
        all_fit(v, requests),
    ensures
        serve(v, requests).wf(),
        serve(v, requests).base == v.base,
        serve(v, requests).contents == v.contents,
        serve(v, requests).issued.len() == v.issued.len() + requests.len(),
        serve(v, requests).cursor == consumed(serve(v, requests).issued),
        serve(v, requests).cursor <= v.capacity(),
        v.cursor <= serve(v, requests).cursor,
    decreases requests.len(),
{
    if requests.len() > 0 {
        let earlier = requests.drop_last();
        lemma_serve_keeps_wf(v, earlier);
        lemma_grant_keeps_wf(serve(v, earlier), requests.last().size, requests.last().align);
    }
}

/// Writing into a block that the arena owns changes the bytes of that block
/// to what was written, and nothing else: the arena stays well formed, and
/// every owned block that shares no byte with it reads as before.
pub proof fn lemma_put_touches_one_block(v: ArenaView, block: Block, data: Seq<u8>, other: Block)
    requires
        v.wf(),
        v.owns(block),
        data.len() == block.size,
    ensures
        v.put(block, data).wf(),
        v.put(block, data).bytes(block) == data,
        v.owns(other) && other.disjoint(block) ==> v.put(block, data).bytes(other) == v.bytes(
            other,
        ),
{
    let w = v.put(block, data);
    assert(w.bytes(block) =~= data);
    if v.owns(other) && other.disjoint(block) {
        assert(w.bytes(other) =~= v.bytes(other));
    }
}

} // verus!
