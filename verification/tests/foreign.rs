use std::cell::{Cell, RefCell};

use aubystd::memory::allocator::Allocator;
use aubystd::memory::allocators::{AllocateError, OutOfMemory};
use aubystd::memory::foreign::{CStyleAllocator, ForeignAllocator};
use aubystd::memory::layout::Layout;
use aubystd::memory::slice_dst::descriptor;
use aubystd::memory::strategy::rc::RC;
use aubystd::memory::strategy::unique::{Unique, UNIQUE};
use aubystd::memory::strategy::{record_layout_for_item, Dropped, StrategyHandle};
use aubystd::memory::strategy::unique::UniqueStrategy;

/// Hands out addresses one after the other and keeps a record of the calls.
struct Counting {
    next: Cell<usize>,
    limit: usize,
    allocated: RefCell<Vec<(usize, usize, usize)>>,
    freed: RefCell<Vec<(usize, usize, usize)>>,
}

impl Counting {
    fn new(limit: usize) -> Self {
        Counting {
            next: Cell::new(0x4000),
            limit,
            allocated: RefCell::new(Vec::new()),
            freed: RefCell::new(Vec::new()),
        }
    }

    fn allocated(&self) -> Vec<(usize, usize, usize)> {
        self.allocated.borrow().clone()
    }

    fn freed(&self) -> Vec<(usize, usize, usize)> {
        self.freed.borrow().clone()
    }
}

impl CStyleAllocator for Counting {
    fn allocate(&self, layout: Layout) -> Result<usize, OutOfMemory> {
        if self.allocated.borrow().len() >= self.limit {
            return Err(OutOfMemory);
        }
        let align = layout.align();
        let address = (self.next.get() + align - 1) / align * align;
        self.next.set(address + layout.size());
        self.allocated.borrow_mut().push((address, layout.size(), align));
        Ok(address)
    }

    fn free(&self, ptr: usize, layout: Layout) {
        self.freed.borrow_mut().push((ptr, layout.size(), layout.align()));
    }
}

#[test]
fn allocate_item() {
    let mut foreign = ForeignAllocator::new(Counting::new(8), 1);
    foreign.take_item(UNIQUE, Layout::new::<u32>(), 5u32.to_ne_bytes().to_vec()).unwrap();
}

#[test]
fn foreign_allocate_items() {
    let mut foreign = ForeignAllocator::new(Counting::new(8), 1);
    let (data, handle) = foreign
        .take_item(UNIQUE, Layout::new::<u32>(), 5u32.to_ne_bytes().to_vec())
        .unwrap();
    assert_eq!(handle.as_ref(&data), &5u32.to_ne_bytes().to_vec());
}

#[test]
fn dropping_a_unique_handle_releases_once_with_the_layout_asked_for() {
    let mut foreign = ForeignAllocator::new(Counting::new(8), 0xabc);
    let (record, _) = record_layout_for_item::<UniqueStrategy>(Layout::new::<u32>()).unwrap();
    let (data, handle) = foreign
        .take_item(UNIQUE, Layout::new::<u32>(), 5u32.to_ne_bytes().to_vec())
        .unwrap();
    let release = handle.drop(data).unwrap();
    assert_eq!(release.context, 0xabc);
    assert_eq!(release.allocation, 0x4000);
    assert_eq!(release.layout.size(), record.size());
    assert_eq!(release.layout.align(), record.align());
    foreign.free(release);
    let (inner, context) = foreign.into_parts();
    assert_eq!(context, 0xabc);
    assert_eq!(inner.allocated(), vec![(0x4000, record.size(), record.align())]);
    assert_eq!(inner.freed(), inner.allocated());
}

#[test]
fn a_release_for_the_null_address_does_nothing() {
    let mut foreign = ForeignAllocator::new(Counting::new(8), 7);
    let vtable = foreign.create_free_vtable();
    let release = vtable.free(0, Layout::new::<u32>()).unwrap();
    foreign.free(release);
    let (inner, _) = foreign.into_parts();
    assert!(inner.freed().is_empty());
}

#[test]
fn a_wrapped_allocator_without_room_gives_out_of_memory() {
    let mut foreign = ForeignAllocator::new(Counting::new(0), 1);
    let result = foreign.take_item(UNIQUE, Layout::new::<u32>(), 5u32.to_ne_bytes().to_vec());
    assert!(matches!(result, Err(AllocateError::OutOfMemory(_))));
}

#[test]
fn a_count_that_overflows_is_a_layout_error_on_every_allocator() {
    let mut foreign = ForeignAllocator::new(Counting::new(8), 1);
    let result = foreign.take_from_zeros(UNIQUE, &descriptor::<[u32]>(), usize::MAX);
    assert!(matches!(result, Err(AllocateError::OverflowedLayoutCalculation(_))));
    let result = foreign.take_from_zeros(RC, &descriptor::<[u32]>(), usize::MAX);
    assert!(matches!(result, Err(AllocateError::OverflowedLayoutCalculation(_))));
    let (inner, _) = foreign.into_parts();
    assert!(inner.allocated().is_empty());
}

#[test]
fn the_last_shared_handle_releases_the_block() {
    let mut foreign = ForeignAllocator::new(Counting::new(8), 3);
    let (mut data, first) = foreign.take_item(RC, Layout::new::<u8>(), vec![42u8]).unwrap();
    let second = first.clone(&mut data);
    let third = first.clone(&mut data);
    let data = match second.drop(data) {
        Dropped::Alive(data) => data,
        Dropped::Released(_) => panic!("released while two handles remain"),
    };
    let data = match third.drop(data) {
        Dropped::Alive(data) => data,
        Dropped::Released(_) => panic!("released while one handle remains"),
    };
    assert_eq!(first.as_ref(&data), &vec![42u8]);
    match first.drop(data) {
        Dropped::Alive(_) => panic!("the last handle did not release"),
        Dropped::Released(release) => foreign.free(release.unwrap()),
    }
    let (inner, _) = foreign.into_parts();
    assert_eq!(inner.freed().len(), 1);
    assert_eq!(inner.freed(), inner.allocated());
}

#[test]
fn the_wrapped_allocator_is_asked_for_the_layout_of_the_record() {
    let mut foreign = ForeignAllocator::new(Counting::new(1), 5);
    let (record, _) = record_layout_for_item::<UniqueStrategy>(Layout::new::<u64>()).unwrap();
    let first = foreign.take_item(UNIQUE, Layout::new::<u64>(), 1u64.to_ne_bytes().to_vec());
    assert!(first.is_ok());
    let second = foreign.take_item(UNIQUE, Layout::new::<u64>(), 2u64.to_ne_bytes().to_vec());
    assert!(matches!(second, Err(AllocateError::OutOfMemory(_))));
    let (inner, _) = foreign.into_parts();
    assert_eq!(inner.allocated(), vec![(0x4000, record.size(), record.align())]);
}

#[test]
fn into_inner_gives_the_value_and_releases() {
    let mut foreign = ForeignAllocator::new(Counting::new(8), 3);
    let (data, handle) = foreign.take_item(UNIQUE, Layout::new::<u16>(), vec![1u8, 2u8]).unwrap();
    let address = Unique::as_value_ptr(&handle) - 2 * std::mem::size_of::<usize>();
    let (value, release) = handle.into_inner(data);
    assert_eq!(value, vec![1u8, 2u8]);
    assert_eq!(release.unwrap().allocation, address);
}
