use crate::memory::free::{FreeVtable, Release};
use crate::memory::layout::Layout;
use crate::memory::strategy::{
    points_to, PinStrategyHandle, Pinned, Strategy, StrategyData, StrategyHandle,
    UninitStrategyHandleExt,
};
use vstd::prelude::*;

verus! {

/// Exclusive ownership: one handle for each record.
#[derive(Clone, Copy, Debug, Default)]
pub struct UniqueStrategy;

/// The exclusive strategy, as a value to hand to an allocator.
pub const UNIQUE: UniqueStrategy = UniqueStrategy;

/// The record of the exclusive strategy: the free descriptor, then the value.
#[derive(Debug)]
pub struct UniqueData {
    address: usize,
    layout: Layout,
    free_vtable: FreeVtable,
    value: Vec<u8>,
}

impl StrategyData for UniqueData {
    closed spec fn address(&self) -> usize {
        self.address
    }

    closed spec fn layout(&self) -> Layout {
        self.layout
    }

    closed spec fn free_vtable(&self) -> FreeVtable {
        self.free_vtable
    }

    open spec fn references(&self) -> usize {
        1
    }

    closed spec fn value(&self) -> Seq<u8> {
        self.value@
    }

    fn value_bytes(&self) -> (bytes: &Vec<u8>) {
        &self.value
    }

    fn write(&mut self, bytes: Vec<u8>) {
        self.value = bytes;
    }
}

impl Strategy for UniqueStrategy {
    type Data = UniqueData;

    type Handle = Unique;

    open spec fn spec_bookkeeping() -> Layout {
        FreeVtable::spec_layout()
    }

    fn bookkeeping() -> (layout: Layout) {
        FreeVtable::layout()
    }

    fn initialize_data(
        free_vtable: FreeVtable,
        address: usize,
        layout: Layout,
        value_size: usize,
    ) -> (data: UniqueData) {
        UniqueData { address, layout, free_vtable, value: vec![0u8; value_size] }
    }

    fn construct_handle(
        address: usize,
        metadata: usize,
        layout: Layout,
        value_offset: usize,
    ) -> (handle: Unique) {
        Unique { address, metadata, layout, value_offset, initialized: false }
    }
}

/// The handle of the exclusive strategy: the only pointer to its record.
#[derive(Debug)]
pub struct Unique {
    address: usize,
    metadata: usize,
    layout: Layout,
    value_offset: usize,
    initialized: bool,
}

impl StrategyHandle for Unique {
    closed spec fn address(&self) -> usize {
        self.address
    }

    closed spec fn metadata(&self) -> usize {
        self.metadata
    }

    closed spec fn layout(&self) -> Layout {
        self.layout
    }

    closed spec fn value_offset(&self) -> usize {
        self.value_offset
    }

    closed spec fn initialized(&self) -> bool {
        self.initialized
    }

    open spec fn bookkeeping_size() -> usize {
        UniqueStrategy::spec_bookkeeping().size_spec()
    }

    fn as_value_ptr(this: &Self) -> (ptr: usize) {
        this.address + this.value_offset
    }

    fn from_value_ptr(ptr: usize, metadata: usize, layout: Layout) -> (this: Self) {
        let offset: usize = UniqueStrategy::bookkeeping().size();
        Unique { address: ptr - offset, metadata, layout, value_offset: offset, initialized: true }
    }

    fn cast(metadata: usize, this: Self, layout: Layout) -> (cast: Self) {
        Unique {
            address: this.address,
            metadata,
            layout,
            value_offset: this.value_offset,
            initialized: this.initialized,
        }
    }
}

impl UninitStrategyHandleExt for Unique {
    fn assume_init(this: Self) -> (init: Self) {
        Unique {
            address: this.address,
            metadata: this.metadata,
            layout: this.layout,
            value_offset: this.value_offset,
            initialized: true,
        }
    }
}

impl PinStrategyHandle for Unique {
    fn into_pin(self) -> (pinned: Pinned<Self>) {
        Pinned::new(self)
    }
}

impl Unique {
    /// Wraps the handle so that its record is known never to move.
    pub fn into_pin(unique: Self) -> (pinned: Pinned<Self>)
        ensures
            pinned.handle_spec() == unique,
    {
        Pinned::new(unique)
    }

    /// The value of the record.
    pub fn as_ref<'a>(&self, data: &'a UniqueData) -> (value: &'a Vec<u8>)
        requires
            points_to(self, data),
            self.initialized(),
        ensures
            value@ == data.value(),
    {
        data.value_bytes()
    }

    /// Overwrites the value of the record.
    pub fn as_mut(&self, data: &mut UniqueData, bytes: Vec<u8>)
        requires
            points_to(self, old(data)),
            self.initialized(),
            bytes@.len() == old(data).value().len(),
        ensures
            final(data).value() == bytes@,
            final(data).address() == old(data).address(),
            final(data).layout() == old(data).layout(),
            final(data).free_vtable() == old(data).free_vtable(),
    {
        data.write(bytes);
    }

    /// Takes the value out and gives the record up: the free descriptor is
    /// read out of the record and invoked on it, without the value being
    /// destroyed. The second part is the call to make on the allocator.
    pub fn into_inner(self, data: UniqueData) -> (taken: (Vec<u8>, Option<Release>))
        requires
            points_to(&self, &data),
            self.initialized(),
        ensures
            taken.0@ == data.value(),
            taken.1 == data.free_vtable().free_spec(self.address(), self.layout()),
    {
        let UniqueData { address: _, layout: _, free_vtable, value } = data;
        (value, free_vtable.free(self.address, self.layout))
    }

    /// Gives the record up: the value is destroyed, then the free descriptor
    /// is read out of the record and invoked on it, always. Returns the call
    /// to make on the allocator.
    pub fn drop(self, data: UniqueData) -> (release: Option<Release>)
        requires
            points_to(&self, &data),
        ensures
            release == data.free_vtable().free_spec(self.address(), self.layout()),
    {
        let UniqueData { address: _, layout: _, free_vtable, value: _ } = data;
        free_vtable.free(self.address, self.layout)
    }
}

} // verus!
