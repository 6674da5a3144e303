use aubystd::memory::allocator::Allocator;
use aubystd::memory::arena::{ArenaAllocator, Buffer};
use aubystd::memory::free::{FreeFn, FreeVtable};
use aubystd::memory::layout::Layout;
use aubystd::memory::strategy::arc::{Arc, ArcStrategy, ARC};
use aubystd::memory::strategy::rc::{Rc, RcStrategy, RC};
use aubystd::memory::strategy::unique::{Unique, UniqueStrategy, UNIQUE};
use aubystd::memory::strategy::{
    record_layout_for_dst, record_layout_for_item, Dropped, PinStrategyHandle, Strategy,
    StrategyData, StrategyHandle, UninitStrategyHandleExt,
};
use aubystd::memory::slice_dst::descriptor;

const WORD: usize = std::mem::size_of::<usize>();

fn arena_for<S: Strategy>(item: Layout, count: usize) -> ArenaAllocator<Buffer> {
    let (record, _) = record_layout_for_item::<S>(item).unwrap();
    ArenaAllocator::new(Buffer::new(0x2000, record.size() * count).unwrap())
}

#[test]
fn rc_allocate() {
    let mut arena = arena_for::<RcStrategy>(Layout::new::<u32>(), 1);
    let (mut data, handle) = arena
        .take_item(RC, Layout::new::<u32>(), 42u32.to_ne_bytes().to_vec())
        .unwrap();
    assert_eq!(handle.as_ref(&data), &42u32.to_ne_bytes().to_vec());
    let second_handle = handle.clone(&mut data);
    assert_eq!(second_handle.as_ref(&data), &42u32.to_ne_bytes().to_vec());
    data.write(16u32.to_ne_bytes().to_vec());
    assert_eq!(handle.as_ref(&data), &16u32.to_ne_bytes().to_vec());
}

#[test]
fn arc_allocate() {
    let mut arena = arena_for::<ArcStrategy>(Layout::new::<u32>(), 1);
    let (mut data, handle) = arena
        .take_item(ARC, Layout::new::<u32>(), 42u32.to_ne_bytes().to_vec())
        .unwrap();
    assert_eq!(handle.as_ref(&data), &42u32.to_ne_bytes().to_vec());
    let second_handle = handle.clone(&mut data);
    assert_eq!(second_handle.as_ref(&data), &42u32.to_ne_bytes().to_vec());
    data.write(16u32.to_ne_bytes().to_vec());
    assert_eq!(handle.as_ref(&data), &16u32.to_ne_bytes().to_vec());
}

#[test]
fn bookkeeping_is_two_words_or_three() {
    assert_eq!(UniqueStrategy::bookkeeping().size(), 2 * WORD);
    assert_eq!(RcStrategy::bookkeeping().size(), 3 * WORD);
    assert_eq!(ArcStrategy::bookkeeping().size(), 3 * WORD);
    assert_eq!(UniqueStrategy::bookkeeping().align(), std::mem::align_of::<usize>());
    assert_eq!(FreeVtable::layout().size(), 2 * WORD);
}

#[test]
fn record_of_an_item_pads_value_and_end() {
    let (record, offset) =
        record_layout_for_item::<RcStrategy>(Layout::from_size_align(5, 16).unwrap()).unwrap();
    assert_eq!(offset, 32);
    assert_eq!(record.size(), 48);
    assert_eq!(record.align(), 16);
    let (record, offset) = record_layout_for_item::<UniqueStrategy>(Layout::new::<u8>()).unwrap();
    assert_eq!(offset, 2 * WORD);
    assert_eq!(record.size(), 3 * WORD);
}

#[test]
fn record_of_an_item_that_does_not_fit_is_refused() {
    let huge = Layout::from_size_align(isize::MAX as usize - 7, 8).unwrap();
    assert!(record_layout_for_item::<UniqueStrategy>(huge).is_err());
}

#[test]
fn record_of_an_open_ended_value_counts_its_elements() {
    let (record, offset) =
        record_layout_for_dst::<UniqueStrategy>(&descriptor::<[u32]>(), 3).unwrap();
    assert_eq!(offset, 2 * WORD);
    assert_eq!(record.size(), 2 * WORD + 16);
    assert!(record_layout_for_dst::<UniqueStrategy>(&descriptor::<[u32]>(), usize::MAX).is_err());
    assert!(record_layout_for_dst::<UniqueStrategy>(&descriptor::<[u8]>(), isize::MAX as usize)
        .is_err());
}

#[test]
fn clone_then_drop_leaves_the_value() {
    let mut arena = arena_for::<RcStrategy>(Layout::new::<u32>(), 1);
    let (mut data, handle) = arena
        .take_item(RC, Layout::new::<u32>(), 7u32.to_ne_bytes().to_vec())
        .unwrap();
    let clone = handle.clone(&mut data);
    let data = match clone.drop(data) {
        Dropped::Alive(data) => data,
        Dropped::Released(_) => panic!("released with a handle left"),
    };
    assert_eq!(handle.as_ref(&data), &7u32.to_ne_bytes().to_vec());
    match handle.drop(data) {
        Dropped::Released(release) => assert!(release.is_none()),
        Dropped::Alive(_) => panic!("the last handle did not release"),
    }
}

#[test]
fn shared_record_is_released_by_the_last_of_its_handles() {
    let mut arena = arena_for::<ArcStrategy>(Layout::new::<u32>(), 1);
    let (mut data, first) = arena
        .take_item(ARC, Layout::new::<u32>(), 7u32.to_ne_bytes().to_vec())
        .unwrap();
    let mut clones: Vec<Arc> = Vec::new();
    for _ in 0..5 {
        clones.push(first.clone(&mut data));
    }
    let mut live = data;
    for clone in clones {
        live = match clone.drop(live) {
            Dropped::Alive(data) => data,
            Dropped::Released(_) => panic!("released with handles left"),
        };
    }
    assert!(matches!(first.drop(live), Dropped::Released(None)));
}

#[test]
fn value_pointer_goes_there_and_back() {
    let mut arena = arena_for::<UniqueStrategy>(Layout::new::<u32>(), 1);
    let (data, handle) = arena
        .take_item(UNIQUE, Layout::new::<u32>(), 7u32.to_ne_bytes().to_vec())
        .unwrap();
    let (record, _) = record_layout_for_item::<UniqueStrategy>(Layout::new::<u32>()).unwrap();
    let ptr = Unique::as_value_ptr(&handle);
    assert_eq!(ptr, 0x2000 + 2 * WORD);
    let back = Unique::from_value_ptr(ptr, 0, record);
    assert_eq!(Unique::into_value_ptr(back), ptr);
    let back = Unique::from_value_ptr(ptr, 0, record);
    assert_eq!(back.as_ref(&data), &7u32.to_ne_bytes().to_vec());
    let shared = Rc::from_value_ptr(0x3000 + 3 * WORD, 0, record);
    assert_eq!(Rc::as_value_ptr(&shared), 0x3000 + 3 * WORD);
}

#[test]
fn cast_keeps_the_record_and_its_bytes() {
    let mut arena = arena_for::<UniqueStrategy>(Layout::new::<u32>(), 1);
    let (data, handle) = arena
        .take_item(UNIQUE, Layout::new::<u32>(), 0x01020304u32.to_ne_bytes().to_vec())
        .unwrap();
    let ptr = Unique::as_value_ptr(&handle);
    let (as_bytes, _) = record_layout_for_item::<UniqueStrategy>(Layout::new::<[u8; 4]>()).unwrap();
    let cast = Unique::cast(0, handle, as_bytes);
    assert_eq!(Unique::as_value_ptr(&cast), ptr);
    assert_eq!(cast.as_ref(&data), &0x01020304u32.to_ne_bytes().to_vec());
}

#[test]
fn reserved_value_is_written_before_it_is_read() {
    let mut arena = arena_for::<UniqueStrategy>(Layout::new::<u32>(), 1);
    let (mut data, handle) = arena.reserve_item(UNIQUE, Layout::new::<u32>()).unwrap();
    assert_eq!(data.value_bytes().len(), 4);
    data.write(9u32.to_ne_bytes().to_vec());
    let handle = Unique::assume_init(handle);
    assert_eq!(handle.as_ref(&data), &9u32.to_ne_bytes().to_vec());
    handle.as_mut(&mut data, 10u32.to_ne_bytes().to_vec());
    assert_eq!(handle.as_ref(&data), &10u32.to_ne_bytes().to_vec());
    let pinned = PinStrategyHandle::into_pin(handle);
    assert_eq!(pinned.get_ref().as_ref(&data), &10u32.to_ne_bytes().to_vec());
}

#[test]
fn free_descriptor_makes_the_call_it_was_made_for() {
    assert!(FreeVtable::new_empty().free(64, Layout::new::<u32>()).is_none());
    let release = FreeVtable::new(FreeFn::Forward, 5).free(64, Layout::new::<u64>()).unwrap();
    assert_eq!(release.context, 5);
    assert_eq!(release.allocation, 64);
    assert_eq!(release.layout.size(), 8);
    assert!(FreeVtable::new(FreeFn::Nothing, 5).free(64, Layout::new::<u64>()).is_none());
}
