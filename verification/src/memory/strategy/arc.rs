use crate::memory::free::{FreeVtable, Release};
use crate::memory::layout::Layout;
use crate::memory::strategy::{
    is_last_reference, points_to, relinquished, retained, Dropped, Strategy, StrategyData,
    StrategyHandle, UninitStrategyHandleExt,
};
use crate::num::lemma_sum_of_multiples;
use vstd::prelude::*;

verus! {

/// Shared ownership across threads: a record lives until its last handle lets go.
#[derive(Clone, Copy, Debug, Default)]
pub struct ArcStrategy;

/// The cross-thread shared strategy, as a value to hand to an allocator.
pub const ARC: ArcStrategy = ArcStrategy;

/// The record of the cross-thread shared strategy: the free descriptor, the count of the
/// handles that refer to the record, then the value.
#[derive(Debug)]
pub struct ArcData {
    address: usize,
    layout: Layout,
    free_vtable: FreeVtable,
    ref_count: usize,
    value: Vec<u8>,
}

impl ArcData {
    /// A record that exists has a handle.
    #[verifier::type_invariant]
    pub closed spec fn inv(&self) -> bool {
        self.ref_count >= 1
    }
}

impl StrategyData for ArcData {
    closed spec fn address(&self) -> usize {
        self.address
    }

    closed spec fn layout(&self) -> Layout {
        self.layout
    }

    closed spec fn free_vtable(&self) -> FreeVtable {
        self.free_vtable
    }

    closed spec fn references(&self) -> usize {
        self.ref_count
    }

    closed spec fn value(&self) -> Seq<u8> {
        self.value@
    }

    fn value_bytes(&self) -> (bytes: &Vec<u8>) {
        &self.value
    }

    fn write(&mut self, bytes: Vec<u8>) {
        proof {
            use_type_invariant(&*self);
        }
        self.value = bytes;
    }
}

impl Strategy for ArcStrategy {
    type Data = ArcData;

    type Handle = Arc;

    open spec fn spec_bookkeeping() -> Layout {
        Layout::spec_new(
            (3 * vstd::layout::size_of::<usize>()) as usize,
            vstd::layout::align_of::<usize>() as usize,
        )
    }

    fn bookkeeping() -> (layout: Layout) {
        broadcast use Layout::lemma_spec_new;

        let descriptor: Layout = FreeVtable::layout();
        let count: Layout = Layout::new::<usize>();
        proof {
            crate::memory::free::lemma_word_layout();
            lemma_sum_of_multiples(
                descriptor.size_spec() as int,
                count.size_spec() as int,
                count.align_spec() as int,
            );
        }
        match descriptor.extend(count) {
            Ok((layout, _)) => {
                proof {
                    layout.lemma_ext_equal(Self::spec_bookkeeping());
                }
                layout
            },
            Err(_) => {
                proof {
                    assert(false);
                }
                descriptor
            },
        }
    }

    fn initialize_data(
        free_vtable: FreeVtable,
        address: usize,
        layout: Layout,
        value_size: usize,
    ) -> (data: ArcData) {
        ArcData { address, layout, free_vtable, ref_count: 1, value: vec![0u8; value_size] }
    }

    fn construct_handle(
        address: usize,
        metadata: usize,
        layout: Layout,
        value_offset: usize,
    ) -> (handle: Arc) {
        Arc { address, metadata, layout, value_offset, initialized: false }
    }
}

/// A handle of the cross-thread shared strategy: one of the pointers to its record.
#[derive(Debug)]
pub struct Arc {
    address: usize,
    metadata: usize,
    layout: Layout,
    value_offset: usize,
    initialized: bool,
}

impl StrategyHandle for Arc {
    closed spec fn address(&self) -> usize {
        self.address
    }

    closed spec fn metadata(&self) -> usize {
        self.metadata
    }

    closed spec fn layout(&self) -> Layout {
        self.layout
    }

    closed spec fn value_offset(&self) -> usize {
        self.value_offset
    }

    closed spec fn initialized(&self) -> bool {
        self.initialized
    }

    open spec fn bookkeeping_size() -> usize {
        ArcStrategy::spec_bookkeeping().size_spec()
    }

    fn as_value_ptr(this: &Self) -> (ptr: usize) {
        this.address + this.value_offset
    }

    fn from_value_ptr(ptr: usize, metadata: usize, layout: Layout) -> (this: Self) {
        let offset: usize = ArcStrategy::bookkeeping().size();
        Arc { address: ptr - offset, metadata, layout, value_offset: offset, initialized: true }
    }

    fn cast(metadata: usize, this: Self, layout: Layout) -> (cast: Self) {
        Arc {
            address: this.address,
            metadata,
            layout,
            value_offset: this.value_offset,
            initialized: this.initialized,
        }
    }
}

impl UninitStrategyHandleExt for Arc {
    fn assume_init(this: Self) -> (init: Self) {
        Arc {
            address: this.address,
            metadata: this.metadata,
            layout: this.layout,
            value_offset: this.value_offset,
            initialized: true,
        }
    }
}

impl Arc {
    /// The value of the record.
    pub fn as_ref<'a>(&self, data: &'a ArcData) -> (value: &'a Vec<u8>)
        requires
            points_to(self, data),
            self.initialized(),
        ensures
            value@ == data.value(),
    {
        data.value_bytes()
    }

    /// One more handle of the same record: the count goes up by one. A record
    /// whose count is at the largest number takes no further handle.
    pub fn clone(&self, data: &mut ArcData) -> (handle: Arc)
        requires
            points_to(self, old(data)),
            old(data).references() < usize::MAX,
        ensures
            final(data).references() == retained(old(data).references()),
            final(data).value() == old(data).value(),
            final(data).address() == old(data).address(),
            final(data).layout() == old(data).layout(),
            final(data).free_vtable() == old(data).free_vtable(),
            handle == *self,
    {
        proof {
            use_type_invariant(&*data);
        }
        data.ref_count = data.ref_count + 1;
        Arc {
            address: self.address,
            metadata: self.metadata,
            layout: self.layout,
            value_offset: self.value_offset,
            initialized: self.initialized,
        }
    }

    /// Lets go of the record. A count at the largest number stays as it is
    /// and the record is never given up. Otherwise the count goes down by
    /// one, and the handle that brings it to zero has the free descriptor
    /// read out of the record and invoked on it: the record is gone, and the
    /// call to make on the allocator comes back.
    pub fn drop(self, data: ArcData) -> (dropped: Dropped<ArcData>)
        requires
            points_to(&self, &data),
        ensures
            is_last_reference(data.references()) ==> dropped == Dropped::<ArcData>::Released(
                data.free_vtable().free_spec(self.address(), self.layout()),
            ),
            !is_last_reference(data.references()) ==> (dropped matches Dropped::Alive(rest) && {
                &&& rest.references() == relinquished(data.references())
                &&& rest.value() == data.value()
                &&& rest.address() == data.address()
                &&& rest.layout() == data.layout()
                &&& rest.free_vtable() == data.free_vtable()
            }),
    {
        proof {
            use_type_invariant(&data);
        }
        let ArcData { address, layout, free_vtable, ref_count, value } = data;
        if ref_count == usize::MAX {
            return Dropped::Alive(ArcData { address, layout, free_vtable, ref_count, value });
        }
        let ref_count: usize = ref_count.saturating_sub(1);
        if ref_count == 0 {
            Dropped::Released(free_vtable.free(self.address, self.layout))
        } else {
            Dropped::Alive(ArcData { address, layout, free_vtable, ref_count, value })
        }
    }
}

} // verus!
