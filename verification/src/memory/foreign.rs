//! An allocator of records over an allocator in the manner of C.

use crate::memory::allocator::{complete_reservation, Allocator, LayoutAllocator};
use crate::memory::allocators::{AllocateError, NoUnderlyingError, OutOfMemory};
use crate::memory::free::{FreeFn, FreeVtable, Release};
use crate::memory::layout::Layout;
use crate::memory::slice_dst::DstDescriptor;
use crate::memory::strategy::{record_layout_for_dst, record_layout_for_item, Strategy};
use vstd::prelude::*;

verus! {

/// An allocator in the manner of C: it hands out blocks of a given layout and
/// takes them back one by one.
///
/// An implementation promises that a block it hands out is not at the null
/// address, is aligned as asked and lies within the address space, and that
/// it stays valid until it is taken back. Both operations take the allocator
/// by shared reference: what an implementation keeps count of, it keeps
/// behind that reference.
pub trait CStyleAllocator: Sized {
    /// Hands out a block of layout `layout`, or has no room.
    fn allocate(&self, layout: Layout) -> (block: Result<usize, OutOfMemory>)
        ensures
            block matches Ok(ptr) ==> {
                &&& ptr != 0
                &&& ptr % layout.align_spec() == 0
                &&& ptr + layout.size_spec() <= usize::MAX
            },
    ;

    /// Takes back the block at `ptr`, which was handed out with the layout
    /// `layout`.
    fn free(&self, ptr: usize, layout: Layout)
    ;
}

/// Makes an allocator of records out of an allocator in the manner of C.
/// Every record is a block of its own and is handed back when it is given up.
/// The allocator keeps account of the blocks that are out.
pub struct ForeignAllocator<C: CStyleAllocator> {
    allocator: C,
    context: usize,
    blocks: Ghost<Map<usize, Layout>>,
}

impl<C: CStyleAllocator> ForeignAllocator<C> {
    /// The allocator that is wrapped.
    pub closed spec fn allocator_spec(self) -> C {
        self.allocator
    }

    /// What names this allocator in the free descriptors it makes.
    pub closed spec fn context_spec(self) -> usize {
        self.context
    }

    /// The blocks that are out: each address with the layout it was asked
    /// for with.
    pub closed spec fn blocks(self) -> Map<usize, Layout> {
        self.blocks@
    }

    /// Wraps `allocator`. `context` names the new allocator in the free
    /// descriptors it makes, as its address would, and is not null.
    pub fn new(allocator: C, context: usize) -> (foreign: ForeignAllocator<C>)
        requires
            context != 0,
        ensures
            foreign.allocator_spec() == allocator,
            foreign.context_spec() == context,
            foreign.blocks() == Map::<usize, Layout>::empty(),
    {
        ForeignAllocator { allocator, context, blocks: Ghost(Map::empty()) }
    }

    /// Takes the allocator apart: the wrapped allocator and the context.
    pub fn into_parts(self) -> (parts: (C, usize))
        ensures
            parts.0 == self.allocator_spec(),
            parts.1 == self.context_spec(),
    {
        (self.allocator, self.context)
    }

    /// The free descriptor for a record of this allocator: it forwards to
    /// `free`, with this allocator as its context.
    pub fn create_free_vtable(&self) -> (vtable: FreeVtable)
        ensures
            vtable == FreeVtable::spec_new(FreeFn::Forward, self.context_spec()),
    {
        FreeVtable::new(FreeFn::Forward, self.context)
    }

    /// Makes the call of a free descriptor of this allocator: the block goes
    /// back to the wrapped allocator, with the layout it was asked for with.
    /// A call for the null address does nothing.
    pub fn free(&mut self, release: Release)
        requires
            release.context != 0,
            release.context == old(self).context_spec(),
            release.allocation != 0 ==> old(self).blocks().contains_key(release.allocation)
                && old(self).blocks()[release.allocation] == release.layout,
        ensures
            final(self).context_spec() == old(self).context_spec(),
            final(self).allocator_spec() == old(self).allocator_spec(),
            release.allocation != 0 ==> call_ensures(
                C::free,
                (&old(self).allocator_spec(), release.allocation, release.layout),
                (),
            ),
            release.allocation != 0 ==> final(self).blocks() == old(self).blocks().remove(
                release.allocation,
            ),
            release.allocation == 0 ==> final(self).blocks() == old(self).blocks(),
    {
        if release.allocation != 0 {
            self.allocator.free(release.allocation, release.layout);
            self.blocks = Ghost(self.blocks@.remove(release.allocation));
        }
    }

    /// Asks the wrapped allocator for a block of layout `layout` and takes
    /// account of it. What comes back is the wrapped allocator's answer to
    /// that layout; the wrapped allocator itself is not exchanged.
    fn allocate_block(&mut self, layout: Layout) -> (block: Result<usize, OutOfMemory>)
        ensures
            call_ensures(C::allocate, (&old(self).allocator_spec(), layout), block),
            final(self).allocator_spec() == old(self).allocator_spec(),
            final(self).context_spec() == old(self).context_spec(),
            block matches Ok(ptr) ==> {
                &&& ptr != 0
                &&& ptr % layout.align_spec() == 0
                &&& ptr + layout.size_spec() <= usize::MAX
                &&& final(self).blocks() == old(self).blocks().insert(ptr, layout)
            },
            block is Err ==> final(self).blocks() == old(self).blocks(),
    {
        let block = self.allocator.allocate(layout);
        let ghost blocks = match block {
            Ok(ptr) => self.blocks@.insert(ptr, layout),
            Err(_) => self.blocks@,
        };
        self.blocks = Ghost(blocks);
        block
    }
}

/// Giving up a record that this allocator reserved makes one call, with the
/// allocator as its context, the record's address and the very layout that
/// the block was asked for with; that call is one that `free` accepts, and
/// after it the other blocks are out as they were before the reservation.
pub proof fn lemma_release_returns_block<C: CStyleAllocator>(
    before: ForeignAllocator<C>,
    after: ForeignAllocator<C>,
    record: Layout,
    address: usize,
)
    requires
        before.reserves(record, Some(address), &after),
    ensures
        after.free_vtable_spec().free_spec(address, record) == Some(
            Release { context: after.context_spec(), allocation: address, layout: record },
        ),
        after.free_vtable_spec() == before.free_vtable_spec(),
        after.blocks().contains_key(address),
        after.blocks()[address] == record,
        after.blocks().remove(address) == before.blocks().remove(address),
        !before.blocks().contains_key(address) ==> after.blocks().remove(address)
            == before.blocks(),
{
    broadcast use FreeVtable::lemma_spec_new;

    assert(after.blocks().remove(address) =~= before.blocks().remove(address));
    if !before.blocks().contains_key(address) {
        assert(before.blocks().remove(address) =~= before.blocks());
    }
}

impl<C: CStyleAllocator> Allocator for ForeignAllocator<C> {
    type UnderlyingAllocateError = NoUnderlyingError;

    /// One more block is out, or nothing changes. Which of the two, and at
    /// which address, the wrapped allocator decides: it is asked for a block
    /// of the record's layout, and what it answers is what comes of the
    /// reservation.
    open spec fn reserves(&self, record: Layout, address: Option<usize>, next: &Self) -> bool {
        &&& next.context_spec() == self.context_spec()
        &&& next.allocator_spec() == self.allocator_spec()
        &&& call_ensures(
            C::allocate,
            (&self.allocator_spec(), record),
            match address {
                Some(block) => Ok(block),
                None => Err(OutOfMemory),
            },
        )
        &&& match address {
            Some(block) => next.blocks() == self.blocks().insert(block, record),
            None => next.blocks() == self.blocks(),
        }
    }

    /// The descriptor that forwards to this allocator.
    open spec fn free_vtable_spec(&self) -> FreeVtable {
        FreeVtable::spec_new(FreeFn::Forward, self.context_spec())
    }

    open spec fn underlying_failures() -> bool {
        false
    }

    fn reserve_item<S: Strategy>(&mut self, strategy: S, item: Layout) -> (reserved: Result<
        (S::Data, S::Handle),
        AllocateError<NoUnderlyingError>,
    >) {
        let record = match record_layout_for_item::<S>(item) {
            Ok(record) => record,
            Err(error) => {
                return Err(AllocateError::OverflowedLayoutCalculation(error));
            },
        };
        let allocated = self.allocate_block(record.0);
        assert(allocated matches Err(error) ==> error == OutOfMemory);
        complete_reservation::<S, NoUnderlyingError>(
            allocated,
            self.create_free_vtable(),
            record,
            0,
            item.size(),
        )
    }

    fn reserve_dst<S: Strategy>(
        &mut self,
        strategy: S,
        dst: &DstDescriptor,
        element_count: usize,
    ) -> (reserved: Result<(S::Data, S::Handle), AllocateError<NoUnderlyingError>>) {
        let record = match record_layout_for_dst::<S>(dst, element_count) {
            Ok(record) => record,
            Err(error) => {
                return Err(AllocateError::OverflowedLayoutCalculation(error));
            },
        };
        let allocated = self.allocate_block(record.0);
        assert(allocated matches Err(error) ==> error == OutOfMemory);
        let value_size: usize = record.0.size() - record.1;
        complete_reservation::<S, NoUnderlyingError>(
            allocated,
            self.create_free_vtable(),
            record,
            element_count,
            value_size,
        )
    }
}

impl<C: CStyleAllocator> LayoutAllocator for ForeignAllocator<C> {

}

} // verus!
