use vstd::prelude::*;

verus! {

/// An address held in 64 bits, whatever the width of a pointer.
#[derive(Clone, Copy, Debug)]
pub struct U64Ptr {
    value: u64,
}

impl U64Ptr {
    /// The 64 bits held.
    pub closed spec fn value_spec(self) -> u64 {
        self.value
    }

    /// Holds the address `ptr`.
    pub fn new(ptr: usize) -> (held: U64Ptr)
        ensures
            held.value_spec() == ptr,
    {
        U64Ptr { value: ptr as u64 }
    }

    /// Holds the null address.
    pub fn null() -> (held: U64Ptr)
        ensures
            held.value_spec() == 0,
    {
        U64Ptr { value: 0 }
    }

    /// The address held, cut to the width of a pointer.
    pub fn value_as_usize(self) -> (address: usize)
        ensures
            address == self.value_spec() as usize,
            self.value_spec() <= usize::MAX ==> address == self.value_spec(),
    {
        #[verifier::truncate]
        (self.value as usize)
    }

    /// The address held, as a pointer.
    pub fn value(self) -> (address: usize)
        ensures
            address == self.value_spec() as usize,
            self.value_spec() <= usize::MAX ==> address == self.value_spec(),
    {
        self.value_as_usize()
    }
}

} // verus!
