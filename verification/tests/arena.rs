use aubystd::memory::allocator::{Allocator, LayoutAllocator};
use aubystd::memory::allocators::{AllocateError, NoUnderlyingError};
use aubystd::memory::arena::{ArenaAllocator, Buffer};
use aubystd::memory::layout::Layout;
use aubystd::memory::slice_dst::{descriptor, DstDescriptor};
use aubystd::memory::strategy::unique::{Unique, UniqueData, UniqueStrategy, UNIQUE};
use aubystd::memory::strategy::{record_layout_for_item, Strategy, StrategyData, StrategyHandle};

const BASE: usize = 0x1000;

fn test_arena<S: Strategy>(item: Layout, count: usize) -> ArenaAllocator<Buffer> {
    let (record, _) = record_layout_for_item::<S>(item).unwrap();
    ArenaAllocator::new(Buffer::new(BASE, record.size() * count).unwrap())
}

fn is_out_of_memory<T>(result: &Result<T, AllocateError<NoUnderlyingError>>) -> bool {
    matches!(result, Err(AllocateError::OutOfMemory(_)))
}

fn is_overflow<T>(result: &Result<T, AllocateError<NoUnderlyingError>>) -> bool {
    matches!(result, Err(AllocateError::OverflowedLayoutCalculation(_)))
}

#[test]
fn arena_allocate_items() {
    let mut arena = test_arena::<UniqueStrategy>(Layout::new::<u32>(), 1);
    let (data, handle) = arena
        .take_item(UNIQUE, Layout::new::<u32>(), 5u32.to_ne_bytes().to_vec())
        .unwrap();
    let result = arena.take_item(UNIQUE, Layout::new::<u32>(), 5u32.to_ne_bytes().to_vec());
    assert!(is_out_of_memory(&result));
    assert_eq!(handle.as_ref(&data), &5u32.to_ne_bytes().to_vec());
}

#[test]
fn allocate_dst() {
    let mut arena = test_arena::<UniqueStrategy>(Layout::new::<u32>(), 1);
    let _first: (UniqueData, Unique) = arena
        .take_item(UNIQUE, Layout::new::<u32>(), 1u32.to_ne_bytes().to_vec())
        .unwrap();
    let result = arena.take_item(UNIQUE, Layout::new::<u32>(), 1u32.to_ne_bytes().to_vec());
    assert!(is_out_of_memory(&result));
}

#[test]
fn allocate_item_oom() {
    let mut arena = test_arena::<UniqueStrategy>(Layout::new::<u32>(), 0);
    let result = arena.take_item(UNIQUE, Layout::new::<u8>(), vec![1u8]);
    assert!(is_out_of_memory(&result));
}

#[test]
fn allocate_dst_oom() {
    let mut arena = test_arena::<UniqueStrategy>(Layout::new::<u32>(), 0);
    let result = arena.take_from_zeros(UNIQUE, &descriptor::<[u8]>(), 1);
    assert!(is_out_of_memory(&result));
}

#[test]
fn allocate_dst_overflow() {
    let mut arena = test_arena::<UniqueStrategy>(Layout::new::<u32>(), 0);
    let result = arena.take_from_zeros(UNIQUE, &descriptor::<[u32]>(), usize::MAX);
    assert!(is_overflow(&result));
    assert_eq!(arena.remaining(), 0);
}

#[test]
fn zeros_on_an_arena_without_bytes_run_out_of_memory() {
    let mut arena = ArenaAllocator::new(Buffer::new(BASE, 0).unwrap());
    let result = arena.take_from_zeros(UNIQUE, &descriptor::<[u8]>(), 5);
    assert!(is_out_of_memory(&result));
}

#[test]
fn arena_of_one_record_and_four_bytes_holds_one_item() {
    let (record, offset) = record_layout_for_item::<UniqueStrategy>(Layout::new::<u32>()).unwrap();
    assert_eq!(record.size(), 2 * std::mem::size_of::<usize>() + std::mem::size_of::<usize>());
    assert_eq!(offset, 2 * std::mem::size_of::<usize>());
    let mut arena = ArenaAllocator::new(Buffer::new(BASE, record.size() + 4).unwrap());
    let (data, handle) = arena
        .take_item(UNIQUE, Layout::new::<u32>(), 5u32.to_ne_bytes().to_vec())
        .unwrap();
    assert_eq!(handle.as_ref(&data), &5u32.to_ne_bytes().to_vec());
    let second = arena.take_item(UNIQUE, Layout::new::<u32>(), 5u32.to_ne_bytes().to_vec());
    assert!(is_out_of_memory(&second));
    assert_eq!(handle.as_ref(&data), &5u32.to_ne_bytes().to_vec());
    assert_eq!(arena.remaining(), 4);
}

#[test]
fn records_that_fill_the_buffer_all_fit_and_one_more_does_not() {
    let item = Layout::new::<u64>();
    let (record, _) = record_layout_for_item::<UniqueStrategy>(item).unwrap();
    let mut arena = test_arena::<UniqueStrategy>(item, 3);
    assert_eq!(arena.len(), 3 * record.size());
    let mut held = Vec::new();
    for n in 0..3u64 {
        let (data, handle) = arena.take_item(UNIQUE, item, n.to_ne_bytes().to_vec()).unwrap();
        assert_eq!(Unique::as_value_ptr(&handle), BASE + (n as usize) * record.size() + 16);
        held.push((data, handle));
    }
    assert_eq!(arena.remaining(), 0);
    assert!(is_out_of_memory(&arena.take_item(UNIQUE, item, 3u64.to_ne_bytes().to_vec())));
    for (n, (data, handle)) in held.iter().enumerate() {
        assert_eq!(handle.as_ref(data), &(n as u64).to_ne_bytes().to_vec());
    }
}

#[test]
fn fetch_head_ptr_aligns_the_block() {
    let mut arena = ArenaAllocator::new(Buffer::new(BASE + 1, 64).unwrap());
    let first = arena.fetch_head_ptr(Layout::from_size_align(3, 1).unwrap()).unwrap();
    assert_eq!(first, BASE + 1);
    let second = arena.fetch_head_ptr(Layout::from_size_align(8, 8).unwrap()).unwrap();
    assert_eq!(second, BASE + 8);
    assert_eq!(arena.remaining(), 64 - 15);
    assert!(arena.fetch_head_ptr(Layout::from_size_align(50, 1).unwrap()).is_err());
    assert_eq!(arena.remaining(), 64 - 15);
    let third = arena.fetch_head_ptr(Layout::from_size_align(49, 1).unwrap()).unwrap();
    assert_eq!(third, BASE + 16);
    assert_eq!(arena.remaining(), 0);
}

#[test]
fn buffer_is_refused_at_null_or_past_the_end() {
    assert!(Buffer::new(0, 16).is_none());
    assert!(Buffer::new(usize::MAX, 1).is_none());
    let buffer = Buffer::new(usize::MAX, 0).unwrap();
    assert_eq!(buffer.base(), usize::MAX);
    assert_eq!(buffer.len(), 0);
}

#[test]
fn take_from_zeros_fills_the_value_with_zeros() {
    let mut arena = ArenaAllocator::new(Buffer::new(BASE, 256).unwrap());
    let (data, handle) = arena.take_from_zeros(UNIQUE, &descriptor::<[u32]>(), 5).unwrap();
    assert!(handle.as_ref(&data).iter().all(|byte| *byte == 0));
    assert!(handle.as_ref(&data).len() >= 20);
    assert_eq!(data.value_bytes().len(), 24);
}

#[test]
fn take_from_iter_writes_each_item_in_its_slot() {
    let mut arena = ArenaAllocator::new(Buffer::new(BASE, 256).unwrap());
    let items: Vec<Vec<u8>> = vec![
        7u16.to_ne_bytes().to_vec(),
        8u16.to_ne_bytes().to_vec(),
        9u16.to_ne_bytes().to_vec(),
    ];
    let (data, handle) = arena.take_from_iter(UNIQUE, Layout::new::<u16>(), items).unwrap();
    let value = handle.as_ref(&data);
    assert_eq!(&value[0..2], &7u16.to_ne_bytes());
    assert_eq!(&value[2..4], &8u16.to_ne_bytes());
    assert_eq!(&value[4..6], &9u16.to_ne_bytes());
}

#[test]
fn take_from_iter_pads_elements_to_their_alignment() {
    let mut arena = ArenaAllocator::new(Buffer::new(BASE, 256).unwrap());
    let element = Layout::from_size_align(3, 2).unwrap();
    let items: Vec<Vec<u8>> = vec![vec![1, 2, 3], vec![4, 5, 6]];
    let (data, handle) = arena.take_from_iter(UNIQUE, element, items).unwrap();
    let value = handle.as_ref(&data);
    assert_eq!(&value[0..8], &[1, 2, 3, 0, 4, 5, 6, 0]);
}

#[test]
fn reserve_layout_hands_out_bytes_of_the_layout() {
    let mut arena = ArenaAllocator::new(Buffer::new(BASE, 256).unwrap());
    let layout = Layout::from_size_align(10, 2).unwrap();
    let (data, handle) = arena.reserve_layout(UNIQUE, layout).unwrap();
    assert_eq!(handle.as_ref(&data).len(), 10);
    assert_eq!(arena.remaining(), 256 - 32);
}

#[test]
fn pin_item_keeps_the_handle() {
    let mut arena = ArenaAllocator::new(Buffer::new(BASE, 256).unwrap());
    let (data, pinned) = arena.pin_item(UNIQUE, Layout::new::<u8>(), vec![9u8]).unwrap();
    assert_eq!(pinned.get_ref().as_ref(&data), &vec![9u8]);
}

#[test]
fn descriptor_of_a_plain_array_has_no_header() {
    let dst: DstDescriptor = descriptor::<[u32]>();
    assert_eq!(dst.header().size(), 0);
    assert_eq!(dst.element().size(), 4);
    assert_eq!(dst.addr_of_slice(64), 64);
    let text: DstDescriptor = descriptor::<str>();
    assert_eq!(text.element().size(), 1);
}
