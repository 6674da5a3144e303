use aubystd::memory::allocators::calculate_layout_for_dst;
use aubystd::memory::layout::Layout;
use aubystd::memory::mmap::MemoryMapped;
use aubystd::memory::slice_dst::{descriptor, DstDescriptor};
use aubystd::memory::uninit::UnsizedMaybeUninit;
use aubystd::num::{align_up, align_up_checked, is_power_of_two};

#[test]
fn from_size_align_accepts_powers_of_two() {
    let layout = Layout::from_size_align(12, 4).unwrap();
    assert_eq!(layout.size(), 12);
    assert_eq!(layout.align(), 4);
    assert!(Layout::from_size_align(12, 3).is_err());
    assert!(Layout::from_size_align(12, 0).is_err());
}

#[test]
fn from_size_align_refuses_sizes_that_do_not_fit() {
    let limit = isize::MAX as usize;
    assert!(Layout::from_size_align(limit, 1).is_ok());
    assert!(Layout::from_size_align(limit + 1, 1).is_err());
    assert!(Layout::from_size_align(limit - 7, 8).is_ok());
    assert!(Layout::from_size_align(limit - 6, 8).is_err());
    assert!(Layout::from_size_align(0, limit + 1).is_ok());
    assert!(Layout::from_size_align(1, limit + 1).is_err());
}

#[test]
fn layout_of_a_type_is_its_size_and_alignment() {
    assert_eq!(Layout::new::<u32>().size(), 4);
    assert_eq!(Layout::new::<u32>().align(), 4);
    assert_eq!(Layout::new::<()>().size(), 0);
    assert_eq!(Layout::unit().size(), 0);
    assert_eq!(Layout::unit().align(), 1);
}

#[test]
fn extend_pads_between_and_not_after() {
    let first = Layout::from_size_align(5, 1).unwrap();
    let next = Layout::from_size_align(6, 4).unwrap();
    let (combined, offset) = first.extend(next).unwrap();
    assert_eq!(offset, 8);
    assert_eq!(combined.size(), 14);
    assert_eq!(combined.align(), 4);
    assert_eq!(combined.pad_to_align().size(), 16);
    assert_eq!(first.padding_needed_for(4), 3);
    assert_eq!(next.padding_needed_for(2), 0);
    let big = Layout::from_size_align(isize::MAX as usize - 3, 4).unwrap();
    assert!(big.extend(next).is_err());
}

#[test]
fn array_multiplies_the_padded_element() {
    let element = Layout::from_size_align(3, 2).unwrap();
    let array = Layout::array(element, 5).unwrap();
    assert_eq!(array.size(), 20);
    assert_eq!(array.align(), 2);
    assert_eq!(Layout::array(Layout::new::<u32>(), 0).unwrap().size(), 0);
    assert!(Layout::array(Layout::new::<u32>(), usize::MAX).is_err());
    assert!(Layout::array(Layout::new::<u32>(), isize::MAX as usize / 4 + 1).is_err());
    assert!(Layout::array(Layout::new::<u32>(), isize::MAX as usize / 4).is_ok());
}

#[test]
fn layout_of_an_open_ended_record() {
    let dst = DstDescriptor::new(Layout::new::<u16>(), Layout::new::<u64>());
    let layout = calculate_layout_for_dst(&dst, 3).unwrap();
    assert_eq!(layout.size(), 32);
    assert_eq!(layout.align(), 8);
    assert_eq!(dst.addr_of_slice(100), 108);
    let bytes = calculate_layout_for_dst(&descriptor::<[u8]>(), 5).unwrap();
    assert_eq!(bytes.size(), 5);
    assert_eq!(bytes.align(), 1);
    assert!(calculate_layout_for_dst(&descriptor::<[u32]>(), usize::MAX).is_err());
    let tight = DstDescriptor::new(Layout::new::<u64>(), Layout::new::<u8>());
    assert!(calculate_layout_for_dst(&tight, isize::MAX as usize - 8).is_err());
    assert!(calculate_layout_for_dst(&tight, isize::MAX as usize - 15).is_ok());
}

#[test]
fn align_up_rounds_to_the_next_multiple() {
    assert_eq!(align_up_checked(0, 8), Some(0));
    assert_eq!(align_up_checked(1, 8), Some(8));
    assert_eq!(align_up_checked(8, 8), Some(8));
    assert_eq!(align_up_checked(9, 8), Some(16));
    assert_eq!(align_up_checked(13, 1), Some(13));
    assert_eq!(align_up(4097, 4096), 8192);
    assert_eq!(align_up_checked(usize::MAX - 8, 8), Some(usize::MAX - 7));
    assert_eq!(align_up_checked(usize::MAX - 7, 8), None);
    assert_eq!(align_up_checked(usize::MAX, 1), None);
}

#[test]
fn powers_of_two_are_told_apart() {
    assert!(is_power_of_two(1));
    assert!(is_power_of_two(2));
    assert!(is_power_of_two(1 << 63));
    assert!(!is_power_of_two(0));
    assert!(!is_power_of_two(6));
    assert!(!is_power_of_two(usize::MAX));
}

#[test]
fn mappings_are_whole_pages() {
    assert_eq!(MemoryMapped::mapped_size(Layout::from_size_align(1, 8).unwrap()), Ok(4096));
    assert_eq!(MemoryMapped::mapped_size(Layout::from_size_align(4096, 4096).unwrap()), Ok(4096));
    assert_eq!(MemoryMapped::mapped_size(Layout::from_size_align(4097, 1).unwrap()), Ok(8192));
    assert_eq!(MemoryMapped::mapped_size(Layout::from_size_align(0, 1).unwrap()), Ok(0));
    let big = Layout::from_size_align(isize::MAX as usize - 4094, 1).unwrap();
    assert!(MemoryMapped::mapped_size(big).is_err());
    assert_eq!(
        MemoryMapped::unmapped_size(Layout::from_size_align(5000, 8).unwrap(), 4096),
        8192
    );
    assert_eq!(
        MemoryMapped::unmapped_size(
            Layout::from_size_align(isize::MAX as usize, 1).unwrap(),
            1 << 63
        ),
        1 << 63
    );
    assert_eq!(MemoryMapped::unmapped_size(Layout::from_size_align(0, 1).unwrap(), 4096), 0);
}

#[test]
fn memory_is_initialized_once_every_byte_is_written() {
    let memory = UnsizedMaybeUninit::new(4);
    assert_eq!(memory.len(), 4);
    assert!(!memory.is_initialized());
    let memory = memory.write(0, &vec![1u8, 2u8]);
    assert!(!memory.is_initialized());
    let memory = memory.write(1, &vec![7u8, 8u8, 9u8]);
    assert!(memory.is_initialized());
    assert_eq!(memory.assume_init(), vec![1u8, 7u8, 8u8, 9u8]);
    assert!(UnsizedMaybeUninit::new(0).is_initialized());
}
