//! Ownership strategies. A record is the free descriptor, the strategy's
//! bookkeeping and the bytes of a value, at an address that an allocator
//! reserved. Whoever owns the memory holds the record as a value; a handle is
//! the address of a record, with the layout of the record and the place of
//! the value in it.

pub mod arc;
pub mod rc;
pub mod unique;

use crate::memory::allocators::{
    calculate_layout_for_dst, dst_layout, OverflowedLayoutCalculation,
};
use crate::memory::free::{FreeVtable, Release};
use crate::memory::layout::{extended, Layout};
use crate::memory::slice_dst::DstDescriptor;
use crate::num::{lemma_power_of_two_exponent, lemma_round_up_is_multiple, round_up};
use vstd::prelude::*;

verus! {

/// The record that holds one sized value: the bookkeeping, the padding that
/// the value needs, the value, the whole padded to its alignment. With it, the
/// offset of the value in the record. Nothing where the size does not fit.
pub open spec fn item_record(bookkeeping: Layout, item: Layout) -> Option<(Layout, usize)> {
    match extended(bookkeeping, item) {
        None => None,
        Some((size, align, offset)) => Some(
            (Layout::spec_new(round_up(size, align) as usize, align as usize), offset as usize),
        ),
    }
}

/// The descriptor of the record that holds an open-ended value: its header is
/// the bookkeeping followed by the value's own header, its elements are the
/// value's elements.
pub open spec fn data_descriptor(bookkeeping: Layout, dst: DstDescriptor) -> Option<DstDescriptor> {
    match extended(bookkeeping, dst.header_spec()) {
        None => None,
        Some((size, align, _)) => Some(
            DstDescriptor::spec_new(
                Layout::spec_new(round_up(size, align) as usize, align as usize),
                dst.element_spec(),
            ),
        ),
    }
}

/// The record that holds an open-ended value of `count` elements, and the
/// offset of the value's header in it.
pub open spec fn dst_record(bookkeeping: Layout, dst: DstDescriptor, count: int) -> Option<
    (Layout, usize),
> {
    match data_descriptor(bookkeeping, dst) {
        None => None,
        Some(descriptor) => match dst_layout(descriptor, count) {
            None => None,
            Some((size, align)) => Some(
                (
                    Layout::spec_new(size as usize, align as usize),
                    round_up(
                        bookkeeping.size_spec() as int,
                        dst.header_spec().align_spec() as int,
                    ) as usize,
                ),
            ),
        },
    }
}

/// The count of a shared record after one more handle refers to it.
pub open spec fn retained(count: usize) -> usize
    recommends
        count < usize::MAX,
{
    (count + 1) as usize
}

/// The count of a shared record after one handle has let go of it. A count at
/// the largest number stays there for good.
pub open spec fn relinquished(count: usize) -> usize
    recommends
        count >= 1,
{
    if count == usize::MAX {
        count
    } else {
        (count - 1) as usize
    }
}

/// Whether the handle that lets go of a record with this count is the last.
pub open spec fn is_last_reference(count: usize) -> bool {
    count == 1
}

/// The count of a shared record after `clones` more handles refer to it.
pub open spec fn after_clones(count: usize, clones: nat) -> usize
    decreases clones,
{
    if clones == 0 {
        count
    } else {
        retained(after_clones(count, (clones - 1) as nat))
    }
}

/// The count of a shared record after `drops` handles have let go of it.
pub open spec fn after_drops(count: usize, drops: nat) -> usize
    decreases drops,
{
    if drops == 0 {
        count
    } else {
        relinquished(after_drops(count, (drops - 1) as nat))
    }
}

/// A handle more and a handle less leave a shared record as it was, and the
/// handle that lets go is not the last: the record stays. This holds below
/// the largest number: a count that reaches it never comes down again.
pub proof fn lemma_clone_then_drop_restores(count: usize)
    requires
        1 <= count,
        count + 1 < usize::MAX,
    ensures
        !is_last_reference(retained(count)),
        relinquished(retained(count)) == count,
{
}

/// Of a record with one handle that is cloned `clones` times, the count is
/// the number of its handles; while handles remain, none that lets go is the
/// last; and the one that lets go when a single handle remains is the last,
/// so that the record is released once, and only then.
pub proof fn lemma_last_drop_releases(clones: nat, drops: nat)
    requires
        clones + 1 < usize::MAX,
        drops <= clones,
    ensures
        after_clones(1, clones) == clones + 1,
        after_drops(after_clones(1, clones), drops) == clones + 1 - drops,
        is_last_reference(after_drops(after_clones(1, clones), drops)) <==> drops == clones,
    decreases clones + drops,
{
    if drops > 0 {
        lemma_last_drop_releases(clones, (drops - 1) as nat);
    } else if clones > 0 {
        lemma_last_drop_releases((clones - 1) as nat, 0);
    }
}

/// In the record of a sized value, the value starts at or after the end of
/// the bookkeeping and ends within the record, and the record is aligned for
/// both.
pub proof fn lemma_item_record_bounds(bookkeeping: Layout, item: Layout)
    requires
        bookkeeping.wf(),
        item.wf(),
        item_record(bookkeeping, item) is Some,
    ensures
        ({
            let record = item_record(bookkeeping, item).unwrap();
            &&& bookkeeping.size_spec() <= record.1
            &&& record.1 + item.size_spec() <= record.0.size_spec()
            &&& record.1 % item.align_spec() == 0
            &&& record.0.size_spec() % record.0.align_spec() == 0
            &&& record.0.align_spec() >= bookkeeping.align_spec()
            &&& record.0.align_spec() >= item.align_spec()
            &&& record.0.wf()
        }),
{
    broadcast use Layout::lemma_spec_new;

    lemma_power_of_two_exponent(bookkeeping.align_spec());
    lemma_power_of_two_exponent(item.align_spec());
    lemma_round_up_is_multiple(bookkeeping.size_spec() as int, item.align_spec() as int);
    let (size, align, offset) = extended(bookkeeping, item).unwrap();
    lemma_round_up_is_multiple(size, align);
    crate::memory::layout::lemma_padded_layout_valid(size, align);
}

/// What letting go of a shared record leaves behind.
#[derive(Debug)]
pub enum Dropped<D> {
    /// Other handles still refer to the record, which is handed back.
    Alive(D),
    /// That was the last handle: the record is gone, and this is the call, if
    /// any, that its free descriptor makes.
    Released(Option<Release>),
}

/// A handle wrapped so that the record it points to is known never to move.
#[derive(Debug)]
pub struct Pinned<H> {
    handle: H,
}

impl<H> Pinned<H> {
    /// The handle that was pinned.
    pub closed spec fn handle_spec(self) -> H {
        self.handle
    }

    /// Pins a handle. No strategy ever moves a record, so this only changes
    /// the handle's type.
    pub fn new(handle: H) -> (pinned: Pinned<H>)
        ensures
            pinned.handle_spec() == handle,
    {
        Pinned { handle }
    }

    /// The handle that was pinned.
    pub fn get_ref(&self) -> (handle: &H)
        ensures
            *handle == self.handle_spec(),
    {
        &self.handle
    }
}

/// A pointer to a record: its address, how many trailing elements it has, its
/// layout, and where in it the value starts.
pub trait StrategyHandle: Sized {
    /// The address of the record.
    spec fn address(&self) -> usize;

    /// The number of trailing elements; zero for a sized value.
    spec fn metadata(&self) -> usize;

    /// The layout of the whole record.
    spec fn layout(&self) -> Layout;

    /// The offset of the value in the record.
    spec fn value_offset(&self) -> usize;

    /// Whether the value has been written.
    spec fn initialized(&self) -> bool;

    /// The size of this strategy's bookkeeping, which is the offset that
    /// `from_value_ptr` goes back by.
    spec fn bookkeeping_size() -> usize;

    /// The address of the value.
    fn as_value_ptr(this: &Self) -> (ptr: usize)
        requires
            this.address() + this.value_offset() <= usize::MAX,
        ensures
            ptr == this.address() + this.value_offset(),
    ;

    /// The handle of the record whose value is at `ptr`, for a value that
    /// starts right after the bookkeeping.
    fn from_value_ptr(ptr: usize, metadata: usize, layout: Layout) -> (this: Self)
        requires
            ptr > Self::bookkeeping_size(),
        ensures
            this.address() == ptr - Self::bookkeeping_size(),
            this.value_offset() == Self::bookkeeping_size(),
            this.metadata() == metadata,
            this.layout() == layout,
            this.initialized(),
    ;

    /// Gives up the handle for the address of the value.
    fn into_value_ptr(this: Self) -> (ptr: usize)
        requires
            this.address() + this.value_offset() <= usize::MAX,
        ensures
            ptr == this.address() + this.value_offset(),
    {
        Self::as_value_ptr(&this)
    }

    /// The same record seen as holding a value of another type, whose record
    /// has the layout `layout` and `metadata` trailing elements. The two
    /// layouts must be the same.
    fn cast(metadata: usize, this: Self, layout: Layout) -> (cast: Self)
        requires
            layout == this.layout(),
        ensures
            cast.address() == this.address(),
            cast.value_offset() == this.value_offset(),
            cast.layout() == this.layout(),
            cast.metadata() == metadata,
            cast.initialized() == this.initialized(),
    ;
}

/// Promotion of a handle once the value has been written.
pub trait UninitStrategyHandleExt: StrategyHandle {
    /// The same handle, now of a written value.
    fn assume_init(this: Self) -> (init: Self)
        ensures
            init.address() == this.address(),
            init.value_offset() == this.value_offset(),
            init.layout() == this.layout(),
            init.metadata() == this.metadata(),
            init.initialized(),
    ;
}

/// Handles that can be pinned.
pub trait PinStrategyHandle: StrategyHandle {
    /// Wraps the handle so that its record is known never to move.
    fn into_pin(self) -> (pinned: Pinned<Self>)
        ensures
            pinned.handle_spec() == self,
    ;
}

/// What is stored at a record's address: the free descriptor, the strategy's
/// bookkeeping and the bytes of the value.
pub trait StrategyData: Sized {
    /// The address of the record.
    spec fn address(&self) -> usize;

    /// The layout of the whole record.
    spec fn layout(&self) -> Layout;

    /// The free descriptor stored in the record.
    spec fn free_vtable(&self) -> FreeVtable;

    /// How many handles refer to the record.
    spec fn references(&self) -> usize;

    /// The bytes of the value.
    spec fn value(&self) -> Seq<u8>;

    /// The bytes of the value.
    fn value_bytes(&self) -> (bytes: &Vec<u8>)
        ensures
            bytes@ == self.value(),
    ;

    /// Overwrites the value. Nothing else in the record changes.
    fn write(&mut self, bytes: Vec<u8>)
        requires
            bytes@.len() == old(self).value().len(),
        ensures
            final(self).value() == bytes@,
            final(self).address() == old(self).address(),
            final(self).layout() == old(self).layout(),
            final(self).free_vtable() == old(self).free_vtable(),
            final(self).references() == old(self).references(),
    ;
}

/// Whether `handle` is a handle of the record `data`.
pub open spec fn points_to<H: StrategyHandle, D: StrategyData>(handle: &H, data: &D) -> bool {
    handle.address() == data.address() && handle.layout() == data.layout()
}

/// An ownership discipline: the shape of its records and the handles that
/// point to them.
pub trait Strategy: Sized {
    /// What is stored at a record's address.
    type Data: StrategyData;

    /// The pointer to a record.
    type Handle: UninitStrategyHandleExt;

    /// The layout of the free descriptor and the strategy's bookkeeping,
    /// which come first in every record.
    spec fn spec_bookkeeping() -> Layout;

    /// The layout of the free descriptor and the strategy's bookkeeping,
    /// which come first in every record.
    fn bookkeeping() -> (layout: Layout)
        ensures
            layout == Self::spec_bookkeeping(),
            layout.wf(),
            layout.size_spec() % layout.align_spec() == 0,
    ;

    /// Writes the bookkeeping of a fresh record at `address`: the free
    /// descriptor, and a count of one. The value's `value_size` bytes are left
    /// as they are, with nothing known of them.
    fn initialize_data(
        free_vtable: FreeVtable,
        address: usize,
        layout: Layout,
        value_size: usize,
    ) -> (data: Self::Data)
        requires
            layout.align_spec() > 0,
            address % layout.align_spec() == 0,
        ensures
            data.address() == address,
            data.layout() == layout,
            data.free_vtable() == free_vtable,
            data.references() == 1,
            data.value().len() == value_size,
    ;

    /// The handle of the record at `address`. This only wraps the numbers.
    fn construct_handle(
        address: usize,
        metadata: usize,
        layout: Layout,
        value_offset: usize,
    ) -> (handle: Self::Handle)
        ensures
            handle.address() == address,
            handle.metadata() == metadata,
            handle.layout() == layout,
            handle.value_offset() == value_offset,
            !handle.initialized(),
    ;
}

/// The layout of the record that holds one value of layout `item` under the
/// strategy `S`, and the offset of the value in it.
pub fn record_layout_for_item<S: Strategy>(item: Layout) -> (record: Result<
    (Layout, usize),
    OverflowedLayoutCalculation,
>)
    ensures
        record is Ok <==> item_record(S::spec_bookkeeping(), item) is Some,
        record matches Ok(pair) ==> {
            &&& item_record(S::spec_bookkeeping(), item) == Some(pair)
            &&& pair.0.wf()
            &&& pair.1 + item.size_spec() <= pair.0.size_spec()
        },
{
    broadcast use Layout::lemma_spec_new;

    let bookkeeping: Layout = S::bookkeeping();
    match bookkeeping.extend(item) {
        Ok((layout, offset)) => {
            let padded: Layout = layout.pad_to_align();
            proof {
                lemma_power_of_two_exponent(layout.align_spec());
                lemma_round_up_is_multiple(
                    layout.size_spec() as int,
                    layout.align_spec() as int,
                );
                padded.lemma_ext_equal(item_record(S::spec_bookkeeping(), item).unwrap().0);
            }
            Ok((padded, offset))
        },
        Err(_) => Err(OverflowedLayoutCalculation),
    }
}

/// The layout of the record that holds an open-ended value of `element_count`
/// elements under the strategy `S`, and the offset of the value in it.
pub fn record_layout_for_dst<S: Strategy>(dst: &DstDescriptor, element_count: usize) -> (record:
    Result<(Layout, usize), OverflowedLayoutCalculation>)
    ensures
        record is Ok <==> dst_record(S::spec_bookkeeping(), *dst, element_count as int) is Some,
        record matches Ok(pair) ==> {
            &&& dst_record(S::spec_bookkeeping(), *dst, element_count as int) == Some(pair)
            &&& pair.0.wf()
            &&& pair.1 <= pair.0.size_spec()
        },
{
    broadcast use Layout::lemma_spec_new, DstDescriptor::lemma_spec_new;

    let bookkeeping: Layout = S::bookkeeping();
    let header: Layout = dst.header();
    let (inner, offset) = match bookkeeping.extend(header) {
        Ok(pair) => pair,
        Err(_) => {
            return Err(OverflowedLayoutCalculation);
        },
    };
    let padded: Layout = inner.pad_to_align();
    let descriptor: DstDescriptor = DstDescriptor::new(padded, dst.element());
    proof {
        lemma_power_of_two_exponent(inner.align_spec());
        lemma_round_up_is_multiple(inner.size_spec() as int, inner.align_spec() as int);
        padded.lemma_ext_equal(
            data_descriptor(S::spec_bookkeeping(), *dst).unwrap().header_spec(),
        );
    }
    match calculate_layout_for_dst(&descriptor, element_count) {
        Ok(layout) => {
            proof {
                let pair = dst_record(S::spec_bookkeeping(), *dst, element_count as int).unwrap();
                layout.lemma_ext_equal(pair.0);
                lemma_dst_layout_holds_header(descriptor, element_count as int);
            }
            Ok((layout, offset))
        },
        Err(_) => Err(OverflowedLayoutCalculation),
    }
}

/// An open-ended record is at least as large as its header.
pub proof fn lemma_dst_layout_holds_header(dst: DstDescriptor, count: int)
    requires
        dst.header_spec().wf(),
        dst.element_spec().wf(),
        count >= 0,
        dst_layout(dst, count) is Some,
    ensures
        dst.header_spec().size_spec() <= dst.elements_offset()
            <= dst_layout(dst, count).unwrap().0,
{
    let header = dst.header_spec();
    let element = dst.element_spec();
    lemma_power_of_two_exponent(element.align_spec());
    lemma_power_of_two_exponent(header.align_spec());
    lemma_round_up_is_multiple(header.size_spec() as int, element.align_spec() as int);
    lemma_round_up_is_multiple(element.size_spec() as int, element.align_spec() as int);
    let stride = round_up(element.size_spec() as int, element.align_spec() as int);
    assert(stride * count >= 0) by (nonlinear_arith)
        requires
            stride >= 0,
            count >= 0,
    ;
    let align = if header.align_spec() >= element.align_spec() {
        header.align_spec() as int
    } else {
        element.align_spec() as int
    };
    lemma_round_up_is_multiple(dst.elements_offset() + stride * count, align);
}

} // verus!
