//! A bump allocator over one buffer of addresses.

use crate::memory::allocator::{complete_reservation, Allocator, LayoutAllocator};
use crate::memory::allocators::{AllocateError, NoUnderlyingError, OutOfMemory};
use crate::memory::free::{FreeFn, FreeVtable};
use crate::memory::layout::{padding_needed, Layout};
use crate::memory::slice_dst::DstDescriptor;
use crate::memory::strategy::{record_layout_for_dst, record_layout_for_item, Strategy};
use crate::num::{
    lemma_power_of_two_exponent, lemma_round_up_is_multiple, lemma_sum_of_multiples,
};
use vstd::prelude::*;

verus! {

/// What a bump of the head does in a buffer of `length` bytes at `base`, for
/// a block of layout `layout`: the head moves past the padding that aligns
/// the block and past the block. The new head and the address of the block,
/// or nothing where the block does not fit.
pub open spec fn bump(base: usize, length: usize, head: usize, layout: Layout) -> Option<
    (usize, usize),
> {
    let offset = padding_needed(base + head, layout.align_spec() as int);
    let new_head = head + offset + layout.size_spec();
    if new_head <= length {
        Some((new_head as usize, (base + head + offset) as usize))
    } else {
        None
    }
}

/// A block lies within the buffer, between the head before it was reserved
/// and the head after, at a multiple of its alignment. So blocks reserved one
/// after the other never share a byte.
pub proof fn lemma_block_between_heads(base: usize, length: usize, head: usize, layout: Layout)
    requires
        layout.wf(),
        head <= length,
        base + length <= usize::MAX,
        bump(base, length, head, layout) is Some,
    ensures
        ({
            let (new_head, block) = bump(base, length, head, layout).unwrap();
            &&& base + head <= block
            &&& block + layout.size_spec() == base + new_head
            &&& new_head <= length
            &&& block % layout.align_spec() == 0
        }),
{
    lemma_power_of_two_exponent(layout.align_spec());
    lemma_round_up_is_multiple((base + head) as int, layout.align_spec() as int);
}

/// A buffer whose size is `count` times the size of a record, and which
/// starts at an address aligned for the record, takes exactly `count` of
/// them: the record number `taken` goes where the one before it ended, with
/// no padding, and once `count` are taken the next one does not fit.
pub proof fn lemma_exact_fill(base: usize, layout: Layout, count: nat, taken: nat)
    requires
        layout.wf(),
        layout.size_spec() > 0,
        layout.size_spec() % layout.align_spec() == 0,
        base % layout.align_spec() == 0,
        count * layout.size_spec() <= usize::MAX,
        taken <= count,
    ensures
        taken * layout.size_spec() <= count * layout.size_spec(),
        taken < count ==> bump(
            base,
            (count * layout.size_spec()) as usize,
            (taken * layout.size_spec()) as usize,
            layout,
        ) == Some(
            (
                ((taken + 1) * layout.size_spec()) as usize,
                (base + taken * layout.size_spec()) as usize,
            ),
        ),
        taken == count ==> bump(
            base,
            (count * layout.size_spec()) as usize,
            (taken * layout.size_spec()) as usize,
            layout,
        ) is None,
{
    let size = layout.size_spec() as int;
    let align = layout.align_spec() as int;
    lemma_power_of_two_exponent(layout.align_spec());
    assert(taken * size <= count * size) by (nonlinear_arith)
        requires
            taken <= count,
            size >= 0,
    ;
    assert((taken + 1) * size == taken * size + size) by (nonlinear_arith);
    if taken < count {
        assert((taken + 1) * size <= count * size) by (nonlinear_arith)
            requires
                taken + 1 <= count,
                size >= 0,
        ;
    }
    vstd::arithmetic::div_mod::lemma_fundamental_div_mod(size, align);
    let q = size / align;
    assert(taken * size == (taken * q) * align) by (nonlinear_arith)
        requires
            size == align * q,
    ;
    vstd::arithmetic::div_mod::lemma_mod_multiples_basic(taken * q, align);
    lemma_sum_of_multiples(base as int, taken * size, align);
}

/// The buffer that an arena hands out: `length` bytes at the address `base`.
#[derive(Clone, Copy, Debug)]
pub struct Buffer {
    base: usize,
    length: usize,
}

impl Buffer {
    /// The address of the first byte.
    pub closed spec fn base_spec(self) -> usize {
        self.base
    }

    /// The number of bytes.
    pub closed spec fn len_spec(self) -> usize {
        self.length
    }

    #[verifier::type_invariant]
    pub closed spec fn inv(self) -> bool {
        self.base != 0 && self.base + self.length <= usize::MAX
    }

    /// The buffer is not at the null address and ends within the address
    /// space. Holds of every buffer that a program can hold.
    pub open spec fn wf(self) -> bool {
        self.base_spec() != 0 && self.base_spec() + self.len_spec() <= usize::MAX
    }

    /// The buffer of `length` bytes at `base`, unless `base` is null or the
    /// buffer would run past the end of the address space.
    pub fn new(base: usize, length: usize) -> (buffer: Option<Buffer>)
        ensures
            buffer is Some <==> base != 0 && base + length <= usize::MAX,
            buffer matches Some(b) ==> b.base_spec() == base && b.len_spec() == length && b.wf(),
    {
        if base == 0 || length > usize::MAX - base {
            None
        } else {
            Some(Buffer { base, length })
        }
    }

    /// The address of the first byte.
    pub fn base(&self) -> (base: usize)
        ensures
            base == self.base_spec(),
            self.wf(),
    {
        proof {
            use_type_invariant(self);
        }
        self.base
    }

    /// The number of bytes.
    pub fn len(&self) -> (length: usize)
        ensures
            length == self.len_spec(),
            self.wf(),
    {
        proof {
            use_type_invariant(self);
        }
        self.length
    }
}

/// Something that holds the buffer of an arena.
pub trait UnsafeCellBuffer {
    /// The buffer held. It does not change.
    spec fn buffer(&self) -> Buffer;

    /// The buffer held.
    fn get(&self) -> (buffer: Buffer)
        ensures
            buffer == self.buffer(),
            buffer.wf(),
    ;
}

impl UnsafeCellBuffer for Buffer {
    open spec fn buffer(&self) -> Buffer {
        *self
    }

    fn get(&self) -> (buffer: Buffer) {
        let _ = self.len();
        *self
    }
}

/// A bump allocator over one buffer. Records are handed out one after the
/// other and never taken back one by one.
#[derive(Debug)]
pub struct ArenaAllocator<A: UnsafeCellBuffer> {
    head: usize,
    data: A,
}

impl<A: UnsafeCellBuffer> ArenaAllocator<A> {
    /// The offset in the buffer of the first byte not handed out.
    pub closed spec fn head_spec(self) -> usize {
        self.head
    }

    /// The buffer.
    pub closed spec fn data_spec(self) -> Buffer {
        self.data.buffer()
    }

    #[verifier::type_invariant]
    pub closed spec fn inv(self) -> bool {
        self.head <= self.data.buffer().len_spec()
    }

    /// The head is within the buffer. Holds of every arena that a program
    /// can hold.
    pub open spec fn wf(self) -> bool {
        self.head_spec() <= self.data_spec().len_spec()
    }

    /// What reserving a block of layout `layout` does to this arena.
    pub open spec fn bump_spec(self, layout: Layout) -> Option<(usize, usize)> {
        bump(self.data_spec().base_spec(), self.data_spec().len_spec(), self.head_spec(), layout)
    }

    /// An arena over `data`, with nothing handed out.
    pub fn new(data: A) -> (arena: ArenaAllocator<A>)
        ensures
            arena.head_spec() == 0,
            arena.data_spec() == data.buffer(),
            arena.wf(),
    {
        ArenaAllocator { head: 0, data }
    }

    /// The size of the buffer.
    pub fn len(&self) -> (length: usize)
        ensures
            length == self.data_spec().len_spec(),
    {
        self.data.get().len()
    }

    /// The bytes not handed out yet.
    pub fn remaining(&self) -> (remaining: usize)
        ensures
            remaining == self.data_spec().len_spec() - self.head_spec(),
            self.wf(),
    {
        proof {
            use_type_invariant(self);
        }
        self.data.get().len() - self.head
    }

    /// Reserves a block of layout `layout`: aligns the head, checks that the
    /// block fits, and only then moves the head past it. A block that does
    /// not fit leaves the arena as it was.
    pub fn fetch_head_ptr(&mut self, layout: Layout) -> (address: Result<usize, OutOfMemory>)
        ensures
            address is Ok <==> old(self).bump_spec(layout) is Some,
            address matches Ok(a) ==> {
                &&& old(self).bump_spec(layout) == Some((final(self).head_spec(), a))
                &&& a != 0
                &&& a % layout.align_spec() == 0
                &&& a + layout.size_spec() <= usize::MAX
                &&& old(self).data_spec().base_spec() + old(self).head_spec() <= a
                &&& a + layout.size_spec() == old(self).data_spec().base_spec()
                    + final(self).head_spec()
            },
            address is Err ==> final(self).head_spec() == old(self).head_spec(),
            final(self).data_spec() == old(self).data_spec(),
            final(self).wf(),
    {
        proof {
            use_type_invariant(&*self);
        }
        let align: usize = layout.align();
        let size: usize = layout.size();
        let buffer: Buffer = self.data.get();
        let base: usize = buffer.base();
        let length: usize = buffer.len();
        proof {
            lemma_power_of_two_exponent(align);
            lemma_round_up_is_multiple((base + self.head) as int, align as int);
        }
        let over: usize = (base + self.head) % align;
        let alignment_offset: usize = if over == 0 {
            0
        } else {
            align - over
        };
        let new_head: usize = match self.head.checked_add(alignment_offset) {
            Some(aligned) => match aligned.checked_add(size) {
                Some(new_head) => new_head,
                None => {
                    return Err(OutOfMemory);
                },
            },
            None => {
                return Err(OutOfMemory);
            },
        };
        if new_head > length {
            return Err(OutOfMemory);
        }
        let head: usize = self.head + alignment_offset;
        self.head = new_head;
        Ok(base + head)
    }
}

impl<A: UnsafeCellBuffer> Allocator for ArenaAllocator<A> {
    type UnderlyingAllocateError = NoUnderlyingError;

    /// The head is bumped where the block fits, and nothing changes where it
    /// does not.
    open spec fn reserves(&self, record: Layout, address: Option<usize>, next: &Self) -> bool {
        &&& next.data_spec() == self.data_spec()
        &&& match self.bump_spec(record) {
            Some((head, block)) => address == Some(block) && next.head_spec() == head,
            None => address is None && next.head_spec() == self.head_spec(),
        }
    }

    /// The empty descriptor: an arena takes no single record back.
    open spec fn free_vtable_spec(&self) -> FreeVtable {
        FreeVtable::spec_new(FreeFn::Nothing, 0)
    }

    open spec fn underlying_failures() -> bool {
        false
    }

    fn reserve_item<S: Strategy>(&mut self, strategy: S, item: Layout) -> (reserved: Result<
        (S::Data, S::Handle),
        AllocateError<NoUnderlyingError>,
    >) {
        let record = match record_layout_for_item::<S>(item) {
            Ok(record) => record,
            Err(error) => {
                return Err(AllocateError::OverflowedLayoutCalculation(error));
            },
        };
        let allocated = self.fetch_head_ptr(record.0);
        complete_reservation::<S, NoUnderlyingError>(
            allocated,
            FreeVtable::new_empty(),
            record,
            0,
            item.size(),
        )
    }

    fn reserve_dst<S: Strategy>(
        &mut self,
        strategy: S,
        dst: &DstDescriptor,
        element_count: usize,
    ) -> (reserved: Result<(S::Data, S::Handle), AllocateError<NoUnderlyingError>>) {
        let record = match record_layout_for_dst::<S>(dst, element_count) {
            Ok(record) => record,
            Err(error) => {
                return Err(AllocateError::OverflowedLayoutCalculation(error));
            },
        };
        let allocated = self.fetch_head_ptr(record.0);
        let value_size: usize = record.0.size() - record.1;
        complete_reservation::<S, NoUnderlyingError>(
            allocated,
            FreeVtable::new_empty(),
            record,
            element_count,
            value_size,
        )
    }
}

impl<A: UnsafeCellBuffer> LayoutAllocator for ArenaAllocator<A> {

}

} // verus!
