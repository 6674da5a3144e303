use aubystd::memory::allocators::{OutOfMemory, OverflowedLayoutCalculation};
use aubystd::memory::types::GrowthStrategy;
use aubystd::platform::U64Ptr;
use aubystd::types::vec::{BaseVec, BaseVecHeader, FixedVec};

#[test]
fn exact_growth_adds_what_is_needed() {
    assert_eq!(GrowthStrategy::Exact.calculate_new_capacity(4, 3), Some(7));
    assert_eq!(GrowthStrategy::Exact.calculate_new_capacity(0, 0), Some(0));
    assert_eq!(GrowthStrategy::Exact.calculate_new_capacity(usize::MAX, 1), None);
    assert_eq!(GrowthStrategy::Exact.calculate_new_capacity(usize::MAX, 0), Some(usize::MAX));
}

#[test]
fn exponential_growth_doubles_or_adds() {
    assert_eq!(GrowthStrategy::Exponential.calculate_new_capacity(4, 3), Some(8));
    assert_eq!(GrowthStrategy::Exponential.calculate_new_capacity(4, 5), Some(9));
    assert_eq!(GrowthStrategy::Exponential.calculate_new_capacity(0, 1), Some(1));
    assert_eq!(GrowthStrategy::Exponential.calculate_new_capacity(usize::MAX / 2 + 1, 0), None);
    assert_eq!(GrowthStrategy::Exponential.calculate_new_capacity(usize::MAX, 1), None);
}

#[test]
fn fixed_vec_takes_values_up_to_its_capacity() {
    let mut vec: BaseVec<u32> = FixedVec::<2>::new();
    assert_eq!(vec.capacity(), 2);
    assert_eq!(vec.len(), 0);
    assert!(!vec.is_full());
    assert!(vec.is_empty());
    assert_eq!(vec.push(1), Ok(()));
    assert_eq!(vec.push(2), Ok(()));
    assert!(vec.is_full());
    assert!(!vec.is_empty());
    assert_eq!(vec.push(3), Err(3));
    assert_eq!(vec.len(), 2);
    assert_eq!(vec.pop(), Some(2));
    assert_eq!(vec.pop(), Some(1));
    assert_eq!(vec.pop(), None);
    assert_eq!(vec.len(), 0);
}

#[test]
fn vec_without_capacity_takes_nothing() {
    let mut vec: BaseVec<u8> = BaseVec::with_capacity(0);
    assert!(vec.is_full());
    assert_eq!(vec.push(1), Err(1));
    let _header: BaseVecHeader = BaseVecHeader::new();
}

#[test]
fn address_in_64_bits_comes_back() {
    assert_eq!(U64Ptr::new(0x1234).value_as_usize(), 0x1234);
    assert_eq!(U64Ptr::new(usize::MAX).value(), usize::MAX);
    assert_eq!(U64Ptr::null().value_as_usize(), 0);
}

#[test]
fn errors_say_what_went_wrong() {
    assert_eq!(OutOfMemory.message(), "allocator is out of memory");
    assert_eq!(
        OverflowedLayoutCalculation.message(),
        "overflowed while attempting to calculate layout"
    );
}
