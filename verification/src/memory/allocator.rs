//! The interface of the sources of records, and what is built on it once for
//! all of them: placing a value, filling with zeros, filling from a sequence
//! of items.

use crate::memory::allocators::{AllocateError, OutOfMemory, OverflowedLayoutCalculation};
use crate::memory::free::FreeVtable;
use crate::memory::layout::{padding_needed, Layout};
use crate::memory::slice_dst::DstDescriptor;
use crate::memory::strategy::{
    dst_record, item_record, points_to, record_layout_for_item, PinStrategyHandle, Pinned,
    Strategy, StrategyData, StrategyHandle, UninitStrategyHandleExt,
};
use crate::num::{lemma_power_of_two_exponent, lemma_round_up_is_multiple, round_up};
use vstd::prelude::*;

verus! {

/// What holds of a record that has just been reserved and of its handle: the
/// handle points to the record, which is aligned, not at the null address and
/// within the address space; one handle refers to it; its value has
/// `value_size` bytes.
pub open spec fn fresh_record<D: StrategyData, H: StrategyHandle>(
    data: D,
    handle: H,
    record: (Layout, usize),
    metadata: usize,
    value_size: usize,
) -> bool {
    &&& points_to(&handle, &data)
    &&& handle.layout() == record.0
    &&& handle.value_offset() == record.1
    &&& handle.metadata() == metadata
    &&& data.references() == 1
    &&& data.value().len() == value_size
    &&& data.address() != 0
    &&& data.address() % record.0.align_spec() == 0
    &&& data.address() + record.0.size_spec() <= usize::MAX
}

/// Makes the record and the handle of a reservation from what the source of
/// the bytes answered: the error where it had no room, else the record at the
/// address it gave, with its bookkeeping written and its value not yet.
pub fn complete_reservation<S: Strategy, E>(
    allocated: Result<usize, OutOfMemory>,
    free_vtable: FreeVtable,
    record: (Layout, usize),
    metadata: usize,
    value_size: usize,
) -> (reserved: Result<(S::Data, S::Handle), AllocateError<E>>)
    requires
        record.0.wf(),
        allocated matches Ok(address) ==> {
            &&& address != 0
            &&& address % record.0.align_spec() == 0
            &&& address + record.0.size_spec() <= usize::MAX
        },
    ensures
        allocated is Err ==> reserved matches Err(AllocateError::OutOfMemory(_)),
        allocated matches Ok(address) ==> (reserved matches Ok((data, handle)) && {
            &&& fresh_record(data, handle, record, metadata, value_size)
            &&& data.address() == address
            &&& data.free_vtable() == free_vtable
            &&& !handle.initialized()
        }),
{
    match allocated {
        Ok(address) => {
            proof {
                lemma_power_of_two_exponent(record.0.align_spec());
            }
            let data = S::initialize_data(free_vtable, address, record.0, value_size);
            let handle = S::construct_handle(address, metadata, record.0, record.1);
            Ok((data, handle))
        },
        Err(error) => Err(AllocateError::OutOfMemory(error)),
    }
}

/// Where the element `index` of a plain array starts in the value of its
/// record: after the padding that follows the bookkeeping, one padded element
/// after the other.
pub open spec fn element_slot(bookkeeping: Layout, element: Layout, index: int) -> int {
    padding_needed(bookkeeping.size_spec() as int, element.align_spec() as int) + index
        * round_up(element.size_spec() as int, element.align_spec() as int)
}

/// The place in a value of the byte `byte` of the element `index`, where the
/// first element starts at `start` and the next ones `stride` bytes apart.
pub open spec fn slot_index(start: int, stride: int, index: int, byte: int) -> int {
    start + index * stride + byte
}

/// Slots do not run into each other: an element ends before the next starts.
pub proof fn lemma_slots_apart(stride: int, size: int, earlier: int, later: int)
    requires
        0 <= size <= stride,
        0 <= earlier < later,
    ensures
        earlier * stride + size <= later * stride,
        0 <= earlier * stride,
{
    assert(earlier * stride + stride == (earlier + 1) * stride) by (nonlinear_arith);
    assert((earlier + 1) * stride <= later * stride) by (nonlinear_arith)
        requires
            earlier + 1 <= later,
            stride >= 0,
    ;
    assert(0 <= earlier * stride) by (nonlinear_arith)
        requires
            0 <= earlier,
            0 <= stride,
    ;
}

/// The bytes of a value of `total` bytes in which each of `items`, of `size`
/// bytes, stands in its slot: the first at `start`, the next `stride` bytes on.
/// The bytes between the slots are zero.
pub fn fill_slots(
    total: usize,
    start: usize,
    stride: usize,
    size: usize,
    items: &Vec<Vec<u8>>,
) -> (bytes: Vec<u8>)
    requires
        size <= stride,
        start + items@.len() * stride <= total,
        forall|j: int| 0 <= j < items@.len() ==> (#[trigger] items@[j])@.len() == size,
    ensures
        bytes@.len() == total,
        forall|j: int, k: int|
            0 <= j < items@.len() && 0 <= k < size ==> bytes@[slot_index(
                start as int,
                stride as int,
                j,
                k,
            )] == #[trigger] items@[j]@[k],
{
    let mut bytes: Vec<u8> = vec![0u8; total];
    let count: usize = items.len();
    let mut i: usize = 0;
    while i < count
        invariant
            i <= count,
            count == items@.len(),
            size <= stride,
            start + count * stride <= total,
            bytes@.len() == total,
            forall|j: int| 0 <= j < items@.len() ==> (#[trigger] items@[j])@.len() == size,
            forall|j: int, k: int|
                0 <= j < i && 0 <= k < size ==> bytes@[slot_index(
                    start as int,
                    stride as int,
                    j,
                    k,
                )] == #[trigger] items@[j]@[k],
        decreases count - i,
    {
        proof {
            lemma_slots_apart(stride as int, size as int, i as int, count as int);
        }
        let at: usize = start + i * stride;
        let item = &items[i];
        let mut k: usize = 0;
        while k < size
            invariant
                k <= size,
                i < count,
                count == items@.len(),
                size <= stride,
                at == start + i * stride,
                at + size <= total,
                bytes@.len() == total,
                item@.len() == size,
                *item == items@[i as int],
                forall|j: int, m: int|
                    0 <= j < i && 0 <= m < size ==> bytes@[slot_index(
                        start as int,
                        stride as int,
                        j,
                        m,
                    )] == #[trigger] items@[j]@[m],
                forall|m: int| 0 <= m < k ==> bytes@[at + m] == #[trigger] item@[m],
            decreases size - k,
        {
            proof {
                assert forall|j: int, m: int|
                    0 <= j < i && 0 <= m < size implies #[trigger] slot_index(
                    start as int,
                    stride as int,
                    j,
                    m,
                ) != at + k && 0 <= slot_index(start as int, stride as int, j, m) < total by {
                    lemma_slots_apart(stride as int, size as int, j, i as int);
                }
            }
            bytes.set(at + k, item[k]);
            k = k + 1;
        }
        i = i + 1;
    }
    bytes
}

/// The record of a plain array has room for all its elements: the value
/// starts right after the bookkeeping, and the last slot ends within it.
pub proof fn lemma_slice_record_holds_elements(bookkeeping: Layout, element: Layout, count: int)
    requires
        bookkeeping.wf(),
        bookkeeping.size_spec() % bookkeeping.align_spec() == 0,
        element.wf(),
        count >= 0,
        dst_record(
            bookkeeping,
            DstDescriptor::spec_new(Layout::spec_unit(), element),
            count,
        ) is Some,
    ensures
        ({
            let record = dst_record(
                bookkeeping,
                DstDescriptor::spec_new(Layout::spec_unit(), element),
                count,
            ).unwrap();
            &&& record.1 == bookkeeping.size_spec()
            &&& record.0.size_spec() >= record.1
            &&& element_slot(bookkeeping, element, count) <= record.0.size_spec() - record.1
            &&& element.size_spec() <= round_up(
                element.size_spec() as int,
                element.align_spec() as int,
            )
            &&& 0 <= padding_needed(bookkeeping.size_spec() as int, element.align_spec() as int)
        }),
{
    broadcast use Layout::lemma_spec_new, DstDescriptor::lemma_spec_new;

    Layout::lemma_spec_unit();
    let size = bookkeeping.size_spec() as int;
    let align = bookkeeping.align_spec() as int;
    let stride = round_up(element.size_spec() as int, element.align_spec() as int);
    lemma_power_of_two_exponent(bookkeeping.align_spec());
    lemma_power_of_two_exponent(element.align_spec());
    assert(size % 1 == 0);
    assert(round_up(size, 1) == size);
    assert(round_up(size, align) == size);
    lemma_round_up_is_multiple(element.size_spec() as int, element.align_spec() as int);
    lemma_round_up_is_multiple(size, element.align_spec() as int);
    let offset = round_up(size, element.align_spec() as int);
    let larger = if align >= element.align_spec() {
        align
    } else {
        element.align_spec() as int
    };
    assert(stride * count >= 0) by (nonlinear_arith)
        requires
            stride >= 0,
            count >= 0,
    ;
    assert(stride * count == count * stride) by (nonlinear_arith);
    lemma_round_up_is_multiple(offset + stride * count, larger);
}

/// What a reservation gives back. A record whose layout cannot be
/// represented gives the layout error. Otherwise either a fresh record comes
/// back, with `free_vtable` in it, or an error that is not the layout error.
/// The value has `sized` bytes, or where that is `None` what follows the
/// bookkeeping up to the end of the record.
pub open spec fn reservation<D: StrategyData, H: StrategyHandle, E>(
    record: Option<(Layout, usize)>,
    metadata: usize,
    sized: Option<usize>,
    free_vtable: FreeVtable,
    reserved: Result<(D, H), AllocateError<E>>,
) -> bool {
    match record {
        None => reserved matches Err(AllocateError::OverflowedLayoutCalculation(_)),
        Some(record) => match reserved {
            Ok((data, handle)) => {
                &&& fresh_record(
                    data,
                    handle,
                    record,
                    metadata,
                    match sized {
                        Some(size) => size,
                        None => (record.0.size_spec() - record.1) as usize,
                    },
                )
                &&& record.1 <= record.0.size_spec()
                &&& data.free_vtable() == free_vtable
            },
            Err(AllocateError::OverflowedLayoutCalculation(_)) => false,
            Err(_) => true,
        },
    }
}

/// What `pin_item` gives back, with the handle taken out of its pin.
pub open spec fn unpinned<D, H, E>(taken: Result<(D, Pinned<H>), AllocateError<E>>) -> Result<
    (D, H),
    AllocateError<E>,
> {
    match taken {
        Ok((data, pinned)) => Ok((data, pinned.handle_spec())),
        Err(error) => Err(error),
    }
}

/// The address of the record that a reservation gave, if it gave one.
pub open spec fn reserved_address<D: StrategyData, H, E>(
    reserved: Result<(D, H), AllocateError<E>>,
) -> Option<usize> {
    match reserved {
        Ok((data, _)) => Some(data.address()),
        Err(_) => None,
    }
}

/// A source of records: it reserves the memory of a sized value or of an
/// open-ended one, under the ownership strategy that the caller chooses.
pub trait Allocator: Sized {
    /// The error of the source of the bytes, where it has one of its own.
    type UnderlyingAllocateError;

    /// Whether reserving a block of layout `record` can take this allocator
    /// to `next` and give the block at `address`, or no block where
    /// `address` is `None`.
    spec fn reserves(&self, record: Layout, address: Option<usize>, next: &Self) -> bool;

    /// The free descriptor that this allocator puts in its records.
    spec fn free_vtable_spec(&self) -> FreeVtable;

    /// Whether the source of the bytes has failures of its own.
    spec fn underlying_failures() -> bool;

    /// Reserves the record of one value of layout `item`. The bookkeeping is
    /// written; the value is not.
    fn reserve_item<S: Strategy>(&mut self, strategy: S, item: Layout) -> (reserved: Result<
        (S::Data, S::Handle),
        AllocateError<Self::UnderlyingAllocateError>,
    >)
        ensures
            reservation(
                item_record(S::spec_bookkeeping(), item),
                0,
                Some(item.size_spec()),
                old(self).free_vtable_spec(),
                reserved,
            ),
            item_record(S::spec_bookkeeping(), item) matches Some(record)
                ==> old(self).reserves(record.0, reserved_address(reserved), final(self)),
            item_record(S::spec_bookkeeping(), item) is None ==> *final(self) == *old(self),
            reserved matches Err(AllocateError::Underlying(_)) ==> Self::underlying_failures(),
            reserved matches Ok((data, handle)) ==> !handle.initialized(),
    ;

    /// Reserves the record of an open-ended value of `element_count`
    /// elements. The bookkeeping is written; header and elements are not. The
    /// value is what follows the bookkeeping up to the end of the record.
    fn reserve_dst<S: Strategy>(
        &mut self,
        strategy: S,
        dst: &DstDescriptor,
        element_count: usize,
    ) -> (reserved: Result<(S::Data, S::Handle), AllocateError<Self::UnderlyingAllocateError>>)
        ensures
            reservation(
                dst_record(S::spec_bookkeeping(), *dst, element_count as int),
                element_count,
                None,
                old(self).free_vtable_spec(),
                reserved,
            ),
            dst_record(S::spec_bookkeeping(), *dst, element_count as int) matches Some(record)
                ==> old(self).reserves(record.0, reserved_address(reserved), final(self)),
            dst_record(S::spec_bookkeeping(), *dst, element_count as int) is None ==> *final(self)
                == *old(self),
            reserved matches Err(AllocateError::Underlying(_)) ==> Self::underlying_failures(),
            reserved matches Ok((data, handle)) ==> !handle.initialized(),
    ;

    /// Reserves a record, writes `value` into it and hands back the handle of
    /// the written value. A failed reservation comes back unchanged.
    fn take_item<S: Strategy>(&mut self, strategy: S, item: Layout, value: Vec<u8>) -> (taken:
        Result<(S::Data, S::Handle), AllocateError<Self::UnderlyingAllocateError>>)
        requires
            value@.len() == item.size_spec(),
        ensures
            reservation(
                item_record(S::spec_bookkeeping(), item),
                0,
                Some(item.size_spec()),
                old(self).free_vtable_spec(),
                taken,
            ),
            item_record(S::spec_bookkeeping(), item) matches Some(record)
                ==> old(self).reserves(record.0, reserved_address(taken), final(self)),
            item_record(S::spec_bookkeeping(), item) is None ==> *final(self) == *old(self),
            taken matches Err(AllocateError::Underlying(_)) ==> Self::underlying_failures(),
            taken matches Ok((data, handle)) ==> handle.initialized() && data.value() == value@,
    {
        match self.reserve_item(strategy, item) {
            Ok((data, handle)) => {
                let mut data = data;
                data.write(value);
                Ok((data, S::Handle::assume_init(handle)))
            },
            Err(error) => Err(error),
        }
    }

    /// `take_item`, with the handle pinned.
    fn pin_item<S: Strategy>(&mut self, strategy: S, item: Layout, value: Vec<u8>) -> (taken:
        Result<(S::Data, Pinned<S::Handle>), AllocateError<Self::UnderlyingAllocateError>>)
        where S::Handle: PinStrategyHandle
        requires
            value@.len() == item.size_spec(),
        ensures
            reservation(
                item_record(S::spec_bookkeeping(), item),
                0,
                Some(item.size_spec()),
                old(self).free_vtable_spec(),
                unpinned(taken),
            ),
            item_record(S::spec_bookkeeping(), item) matches Some(record)
                ==> old(self).reserves(
                record.0,
                reserved_address(unpinned(taken)),
                final(self),
            ),
            item_record(S::spec_bookkeeping(), item) is None ==> *final(self) == *old(self),
            taken matches Err(AllocateError::Underlying(_)) ==> Self::underlying_failures(),
            taken matches Ok((data, pinned)) ==> pinned.handle_spec().initialized()
                && data.value() == value@,
    {
        match self.take_item(strategy, item, value) {
            Ok((data, handle)) => Ok((data, handle.into_pin())),
            Err(error) => Err(error),
        }
    }

    /// Reserves the record of a plain array with one element for each item
    /// of `iterator`, whose length says how many there are, and writes the
    /// items into the slots one after the other. Each item has the bytes of
    /// one element.
    fn take_from_iter<S: Strategy>(
        &mut self,
        strategy: S,
        element: Layout,
        iterator: Vec<Vec<u8>>,
    ) -> (taken: Result<(S::Data, S::Handle), AllocateError<Self::UnderlyingAllocateError>>)
        requires
            forall|j: int|
                0 <= j < iterator@.len() ==> (#[trigger] iterator@[j])@.len()
                    == element.size_spec(),
        ensures
            reservation(
                dst_record(
                    S::spec_bookkeeping(),
                    DstDescriptor::spec_new(Layout::spec_unit(), element),
                    iterator@.len() as int,
                ),
                iterator@.len() as usize,
                None,
                old(self).free_vtable_spec(),
                taken,
            ),
            dst_record(
                    S::spec_bookkeeping(),
                    DstDescriptor::spec_new(Layout::spec_unit(), element),
                    iterator@.len() as int,
                ) matches Some(record)
                ==> old(self).reserves(record.0, reserved_address(taken), final(self)),
            dst_record(
                    S::spec_bookkeeping(),
                    DstDescriptor::spec_new(Layout::spec_unit(), element),
                    iterator@.len() as int,
                ) is None ==> *final(self) == *old(self),
            taken matches Err(AllocateError::Underlying(_)) ==> Self::underlying_failures(),
            taken matches Ok((data, handle)) ==> {
                &&& handle.initialized()
                &&& forall|j: int, k: int|
                    0 <= j < iterator@.len() && 0 <= k < element.size_spec()
                        ==> data.value()[slot_index(
                        padding_needed(
                            S::spec_bookkeeping().size_spec() as int,
                            element.align_spec() as int,
                        ),
                        round_up(element.size_spec() as int, element.align_spec() as int),
                        j,
                        k,
                    )] == #[trigger] iterator@[j]@[k]
            },
    {
        let dst: DstDescriptor = DstDescriptor::slice(element);
        let count: usize = iterator.len();
        match self.reserve_dst(strategy, &dst, count) {
            Ok((data, handle)) => {
                let mut data = data;
                let bookkeeping: Layout = S::bookkeeping();
                let start: usize = bookkeeping.padding_needed_for(element.align());
                let stride: usize = element.pad_to_align().size();
                let total: usize = data.value_bytes().len();
                proof {
                    lemma_slice_record_holds_elements(bookkeeping, element, count as int);
                }
                let bytes: Vec<u8> = fill_slots(total, start, stride, element.size(), &iterator);
                data.write(bytes);
                Ok((data, S::Handle::assume_init(handle)))
            },
            Err(error) => Err(error),
        }
    }

    /// Reserves an open-ended record and fills header and elements with
    /// zeros in one pass.
    fn take_from_zeros<S: Strategy>(
        &mut self,
        strategy: S,
        dst: &DstDescriptor,
        element_count: usize,
    ) -> (taken: Result<(S::Data, S::Handle), AllocateError<Self::UnderlyingAllocateError>>)
        ensures
            reservation(
                dst_record(S::spec_bookkeeping(), *dst, element_count as int),
                element_count,
                None,
                old(self).free_vtable_spec(),
                taken,
            ),
            dst_record(S::spec_bookkeeping(), *dst, element_count as int) matches Some(record)
                ==> old(self).reserves(record.0, reserved_address(taken), final(self)),
            dst_record(S::spec_bookkeeping(), *dst, element_count as int) is None ==> *final(self)
                == *old(self),
            taken matches Err(AllocateError::Underlying(_)) ==> Self::underlying_failures(),
            taken matches Ok((data, handle)) ==> {
                &&& handle.initialized()
                &&& forall|i: int| 0 <= i < data.value().len() ==> data.value()[i] == 0
            },
    {
        match self.reserve_dst(strategy, dst, element_count) {
            Ok((data, handle)) => {
                let mut data = data;
                let size: usize = data.value_bytes().len();
                data.write(vec![0u8; size]);
                Ok((data, S::Handle::assume_init(handle)))
            },
            Err(error) => Err(error),
        }
    }
}

/// A source of records that also reserves plain bytes of a given layout.
pub trait LayoutAllocator: Allocator {
    /// Reserves a record whose value is `layout.size()` bytes at
    /// `layout.align()`, and hands it out as an array of bytes with nothing
    /// known of them. The handle's count of elements is the size of the whole
    /// record.
    fn reserve_layout<S: Strategy>(&mut self, strategy: S, layout: Layout) -> (reserved: Result<
        (S::Data, S::Handle),
        AllocateError<Self::UnderlyingAllocateError>,
    >)
        ensures
            item_record(S::spec_bookkeeping(), layout) matches Some(record) ==> reservation(
                Some(record),
                record.0.size_spec(),
                Some(layout.size_spec()),
                old(self).free_vtable_spec(),
                reserved,
            ) && old(self).reserves(record.0, reserved_address(reserved), final(self)),
            item_record(S::spec_bookkeeping(), layout) is None ==> *final(self) == *old(self)
                && reserved matches Err(AllocateError::OverflowedLayoutCalculation(_)),
            reserved matches Err(AllocateError::Underlying(_)) ==> Self::underlying_failures(),
            reserved matches Ok((data, handle)) ==> handle.initialized(),
    {
        match self.reserve_item(strategy, layout) {
            Ok((data, handle)) => {
                let record: Layout = match record_layout_for_item::<S>(layout) {
                    Ok((record, _)) => record,
                    Err(error) => {
                        return Err(AllocateError::OverflowedLayoutCalculation(error));
                    },
                };
                let handle = S::Handle::cast(record.size(), handle, record);
                Ok((data, S::Handle::assume_init(handle)))
            },
            Err(error) => Err(error),
        }
    }
}

} // verus!
