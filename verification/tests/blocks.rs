use bump_arena::{Arena, Block, OutOfMemory};
use std::mem::{align_of, size_of};

const REQUESTS: [(usize, usize); 9] =
    [(1, 1), (8, 8), (3, 2), (16, 16), (0, 4), (5, 1), (4, 4), (0, 1), (2, 32)];

fn arena_at(base: usize, capacity: usize) -> Arena {
    Arena::from_buffer(base, vec![0u8; capacity]).unwrap()
}

fn overlap(a: &Block, b: &Block) -> bool {
    a.address < b.address + b.size && b.address < a.address + a.size
}

#[test]
fn cursor_is_the_sum_of_padding_and_size() {
    for base in [0usize, 1, 7, 8, 4096, 4099] {
        let mut arena = arena_at(base, 256);
        let mut total = 0usize;
        for (size, align) in REQUESTS {
            let padding = arena.padding(size, align).unwrap();
            arena.allocate(size, align).unwrap();
            total += padding + size;
            assert_eq!(arena.cursor(), total);
            assert!(total <= arena.capacity());
        }
    }
}

#[test]
fn cursor_after_known_requests() {
    let mut arena = arena_at(4099, 256);
    let mut cursors = Vec::new();
    for (size, align) in REQUESTS {
        arena.allocate(size, align).unwrap();
        cursors.push(arena.cursor());
    }
    // Addresses 4099, 4104, 4112, 4128, 4144, 4144, 4152, 4156, 4160.
    assert_eq!(cursors, vec![1, 13, 16, 45, 45, 50, 57, 57, 63]);
}

#[test]
fn blocks_start_where_the_model_says() {
    let mut arena = arena_at(4099, 256);
    let mut blocks = Vec::new();
    for (size, align) in REQUESTS {
        blocks.push(arena.allocate(size, align).unwrap());
    }
    let addresses: Vec<usize> = blocks.iter().map(|b| b.address).collect();
    assert_eq!(addresses, vec![4099, 4104, 4112, 4128, 4144, 4144, 4152, 4156, 4160]);
    let sizes: Vec<usize> = blocks.iter().map(|b| b.size).collect();
    assert_eq!(sizes, vec![1, 8, 3, 16, 0, 5, 4, 0, 2]);
}

#[test]
fn issued_blocks_never_overlap() {
    for base in [0usize, 3, 8, 4099] {
        let mut arena = arena_at(base, 256);
        let mut blocks: Vec<Block> = Vec::new();
        for (size, align) in REQUESTS {
            let block = arena.allocate(size, align).unwrap();
            for earlier in &blocks {
                assert!(!overlap(earlier, &block));
                assert!(earlier.address + earlier.size <= block.address);
            }
            blocks.push(block);
        }
    }
}

#[test]
fn issued_blocks_lie_inside_the_buffer() {
    let mut arena = arena_at(4099, 64);
    for (size, align) in REQUESTS {
        match arena.allocate(size, align) {
            Ok(block) => {
                assert!(block.address >= arena.base_address());
                assert!(block.address + block.size <= arena.base_address() + arena.cursor());
                assert!(arena.cursor() <= arena.capacity());
                assert!(arena.owns(block));
            }
            Err(OutOfMemory) => assert!(arena.padding(size, align).is_none()),
        }
    }
}

#[test]
fn every_block_starts_on_its_alignment() {
    for base in [1usize, 2, 5, 16, 4099] {
        let mut arena = arena_at(base, 4096);
        for align in [1usize, 2, 4, 8, 16, 32, 64, 3, 12] {
            let block = arena.allocate(5, align).unwrap();
            assert_eq!(block.address % align, 0);
            assert_eq!(block.size, 5);
        }
    }
}

#[test]
fn real_memory_blocks_are_aligned() {
    let mut arena = Arena::with_capacity(1024).unwrap();
    arena.allocate(1, 1).unwrap();
    for align in [2usize, 4, 8, 16, 32, 64] {
        let block = arena.allocate(3, align).unwrap();
        assert_eq!(block.address % align, 0);
    }
}

fn agrees<T>(base: usize, capacity: usize, taken: usize) {
    let mut arena = arena_at(base, capacity);
    arena.allocate(taken, 1).unwrap();
    let before = arena.cursor();
    let fit = arena.can_fit::<T>();
    assert_eq!(arena.cursor(), before);
    assert_eq!(fit, arena.padding(size_of::<T>(), align_of::<T>()).is_some());
    assert_eq!(arena.cursor(), before);
    assert_eq!(fit, arena.allocate(size_of::<T>(), align_of::<T>()).is_ok());
    if !fit {
        assert_eq!(arena.cursor(), before);
    }
}

#[test]
fn fit_query_agrees_with_the_next_request() {
    for base in [0usize, 1, 8, 15, 4099] {
        for taken in 0usize..=24 {
            agrees::<u8>(base, 24, taken);
            agrees::<u16>(base, 24, taken);
            agrees::<u32>(base, 24, taken);
            agrees::<u64>(base, 24, taken);
            agrees::<u128>(base, 24, taken);
            agrees::<[u8; 7]>(base, 24, taken);
            agrees::<()>(base, 24, taken);
        }
    }
}

#[test]
fn fit_query_on_known_positions() {
    let mut arena = arena_at(0x1000, 24);
    assert!(arena.can_fit::<u64>());
    assert!(arena.can_fit::<[u64; 3]>());
    assert!(!arena.can_fit::<[u64; 4]>());
    arena.allocate(1, 1).unwrap();
    assert!(arena.can_fit::<[u64; 2]>());
    assert!(!arena.can_fit::<[u64; 3]>());
    assert!(arena.can_fit::<[u8; 23]>());
    assert!(!arena.can_fit::<[u8; 24]>());
    arena.allocate(16, 1).unwrap();
    assert!(!arena.can_fit::<u64>());
    assert!(arena.can_fit::<[u8; 7]>());
    assert!(arena.can_fit::<u32>());
    assert_eq!(arena.cursor(), 17);
}

#[test]
fn slice_query_multiplies_by_the_count() {
    let mut arena = arena_at(0x1000, 24);
    assert!(arena.can_fit_slice::<u64>(3));
    assert!(!arena.can_fit_slice::<u64>(4));
    assert!(arena.can_fit_slice::<u16>(12));
    assert!(!arena.can_fit_slice::<u16>(13));
    arena.allocate(1, 1).unwrap();
    assert!(arena.can_fit_slice::<u64>(2));
    assert!(!arena.can_fit_slice::<u64>(3));
    assert!(arena.can_fit_slice::<u16>(11));
    assert!(!arena.can_fit_slice::<u16>(12));
    assert_eq!(arena.cursor(), 1);
}

#[test]
fn slice_query_with_a_total_too_large_to_count() {
    let arena = arena_at(0x1000, 24);
    assert!(!arena.can_fit_slice::<u64>(usize::MAX));
    assert!(!arena.can_fit_slice::<u64>(usize::MAX / 8 + 1));
    assert!(!arena.can_fit_slice::<u16>(usize::MAX / 2 + 1));
    assert!(!arena.can_fit_slice::<u8>(usize::MAX));
    assert!(arena.can_fit_slice::<()>(usize::MAX));
}

#[test]
fn slice_query_with_no_elements() {
    let mut arena = arena_at(0x1000, 24);
    assert!(arena.can_fit_slice::<u8>(0));
    assert!(arena.can_fit_slice::<u64>(0));
    arena.allocate(24, 1).unwrap();
    // On a boundary no padding is needed, so nothing still fits.
    assert!(arena.can_fit_slice::<u8>(0));
    assert!(arena.can_fit_slice::<u64>(0));

    // Three bytes are left and seven bytes of padding are needed.
    let arena = arena_at(9, 3);
    assert!(arena.can_fit_slice::<u8>(0));
    assert!(!arena.can_fit_slice::<u64>(0));
}

#[test]
fn release_changes_nothing() {
    let mut used = arena_at(4099, 64);
    let mut twin = arena_at(4099, 64);
    let mut blocks = Vec::new();
    for (size, align) in [(1usize, 1usize), (8, 8), (3, 2)] {
        blocks.push(used.allocate(size, align).unwrap());
        twin.allocate(size, align).unwrap();
    }
    for block in &blocks {
        used.deallocate(*block);
        assert_eq!(used.cursor(), twin.cursor());
        assert_eq!(used.capacity(), twin.capacity());
        assert_eq!(used.can_fit::<u64>(), twin.can_fit::<u64>());
        assert_eq!(used.can_fit_slice::<u32>(11), twin.can_fit_slice::<u32>(11));
        assert_eq!(used.can_fit_slice::<u32>(12), twin.can_fit_slice::<u32>(12));
        assert!(used.owns(*block));
    }
    assert_eq!(used.cursor(), 16);
    for (size, align) in [(16usize, 16usize), (40, 1), (1, 1), (2, 2), (16, 8)] {
        assert_eq!(used.allocate(size, align), twin.allocate(size, align));
        assert_eq!(used.cursor(), twin.cursor());
    }
}

#[test]
fn released_space_is_not_handed_out_again() {
    let mut arena = arena_at(0, 16);
    let whole = arena.allocate(16, 1).unwrap();
    arena.deallocate(whole);
    assert!(!arena.can_fit::<u8>());
    assert_eq!(arena.allocate(1, 1), Err(OutOfMemory));
    assert_eq!(arena.cursor(), 16);
}

#[test]
fn refused_request_leaves_the_arena_as_it_was() {
    let mut arena = arena_at(4099, 32);
    let first = arena.allocate(10, 1).unwrap();
    assert!(arena.store(first, &[7u8; 10]));
    assert_eq!(arena.allocate(23, 1), Err(OutOfMemory));
    assert_eq!(arena.allocate(8, 32), Err(OutOfMemory));
    assert_eq!(arena.allocate(usize::MAX, 1), Err(OutOfMemory));
    assert_eq!(arena.cursor(), 10);
    assert_eq!(arena.capacity(), 32);
    assert_eq!(arena.load(first).unwrap(), vec![7u8; 10]);
    assert_eq!(arena.allocate(22, 1), Ok(Block { address: 4109, size: 22 }));
    assert_eq!(arena.cursor(), 32);
}
