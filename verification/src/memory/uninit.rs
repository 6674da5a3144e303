use vstd::prelude::*;

verus! {

/// Memory that is being filled: each byte is either written, and then has a
/// value, or not yet. The number of bytes is fixed when it is made.
#[derive(Debug)]
pub struct UnsizedMaybeUninit {
    bytes: Vec<u8>,
    written: Vec<bool>,
}

impl View for UnsizedMaybeUninit {
    type V = Seq<Option<u8>>;

    closed spec fn view(&self) -> Seq<Option<u8>> {
        Seq::new(
            self.bytes@.len(),
            |i: int|
                if i < self.written@.len() && self.written@[i] {
                    Some(self.bytes@[i])
                } else {
                    None
                },
        )
    }
}

impl UnsizedMaybeUninit {
    #[verifier::type_invariant]
    pub closed spec fn inv(&self) -> bool {
        self.bytes@.len() == self.written@.len()
    }

    /// Whether every byte has been written.
    pub open spec fn initialized(&self) -> bool {
        forall|i: int| 0 <= i < self@.len() ==> (#[trigger] self@[i]) is Some
    }

    /// `length` bytes, none of them written.
    pub fn new(length: usize) -> (memory: UnsizedMaybeUninit)
        ensures
            memory@.len() == length,
            forall|i: int| 0 <= i < length ==> (#[trigger] memory@[i]) is None,
    {
        UnsizedMaybeUninit { bytes: vec![0u8; length], written: vec![false; length] }
    }

    /// The number of bytes.
    pub fn len(&self) -> (length: usize)
        ensures
            length == self@.len(),
    {
        self.bytes.len()
    }

    /// Writes `bytes` at `offset`. The other bytes stay as they are.
    pub fn write(self, offset: usize, bytes: &Vec<u8>) -> (memory: UnsizedMaybeUninit)
        requires
            offset + bytes@.len() <= self@.len(),
        ensures
            memory@.len() == self@.len(),
            forall|i: int|
                0 <= i < self@.len() ==> #[trigger] memory@[i] == if offset <= i < offset
                    + bytes@.len() {
                    Some(bytes@[i - offset])
                } else {
                    self@[i]
                },
    {
        proof {
            use_type_invariant(&self);
        }
        let ghost before = self@;
        let UnsizedMaybeUninit { bytes: mut held, written: mut marks } = self;
        let count: usize = bytes.len();
        let total: usize = held.len();
        assert(before.len() == held@.len());
        assert forall|i: int| 0 <= i < held@.len() implies (if marks@[i] {
            Some(held@[i])
        } else {
            None
        }) == #[trigger] before[i] by {}
        let mut k: usize = 0;
        while k < count
            invariant
                k <= count,
                count == bytes@.len(),
                held@.len() == marks@.len(),
                held@.len() == before.len(),
                held@.len() == total,
                offset + count <= held@.len(),
                forall|i: int|
                    0 <= i < held@.len() ==> (if marks@[i] {
                        Some(held@[i])
                    } else {
                        None
                    }) == (if offset <= i < offset + k {
                        Some(bytes@[i - offset])
                    } else {
                        #[trigger] before[i]
                    }),
            decreases count - k,
        {
            held.set(offset + k, bytes[k]);
            marks.set(offset + k, true);
            k = k + 1;
        }
        UnsizedMaybeUninit { bytes: held, written: marks }
    }

    /// Tells whether every byte has been written.
    pub fn is_initialized(&self) -> (yes: bool)
        ensures
            yes == self.initialized(),
    {
        proof {
            use_type_invariant(self);
        }
        let count: usize = self.written.len();
        let mut k: usize = 0;
        while k < count
            invariant
                k <= count,
                count == self.written@.len(),
                self.bytes@.len() == self.written@.len(),
                forall|i: int| 0 <= i < k ==> (#[trigger] self@[i]) is Some,
            decreases count - k,
        {
            if !self.written[k] {
                assert(self@[k as int] is None);
                return false;
            }
            assert(self@[k as int] is Some);
            k = k + 1;
        }
        true
    }

    /// The bytes, once every one of them has been written.
    pub fn assume_init(self) -> (bytes: Vec<u8>)
        requires
            self.initialized(),
        ensures
            bytes@.len() == self@.len(),
            forall|i: int| 0 <= i < bytes@.len() ==> Some(#[trigger] bytes@[i]) == self@[i],
    {
        proof {
            use_type_invariant(&self);
            assert forall|i: int| 0 <= i < self.bytes@.len() implies Some(
                #[trigger] self.bytes@[i],
            ) == self@[i] by {
                assert(self@[i] is Some);
            }
        }
        self.bytes
    }
}

} // verus!
