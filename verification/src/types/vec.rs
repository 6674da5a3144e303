use vstd::prelude::*;

verus! {

/// The fixed part of a sequence stored in a record: how many values it holds.
#[derive(Clone, Copy, Debug)]
pub struct BaseVecHeader {
    length: usize,
}

impl BaseVecHeader {
    /// The number of values.
    pub closed spec fn length_spec(self) -> usize {
        self.length
    }

    /// The header of a sequence without values.
    pub fn new() -> (header: BaseVecHeader)
        ensures
            header.length_spec() == 0,
    {
        BaseVecHeader { length: 0 }
    }
}

/// A sequence of values in storage of a fixed capacity.
#[derive(Debug)]
pub struct BaseVec<T> {
    capacity: usize,
    values: Vec<T>,
}

/// A sequence whose capacity is part of its type.
#[derive(Clone, Copy, Debug)]
pub struct FixedVec<const CAPACITY: usize>;

impl<const CAPACITY: usize> FixedVec<CAPACITY> {
    /// A sequence without values, with room for `CAPACITY`.
    pub fn new<T>() -> (vec: BaseVec<T>)
        ensures
            vec@ == Seq::<T>::empty(),
            vec.capacity_spec() == CAPACITY,
    {
        BaseVec { capacity: CAPACITY, values: Vec::new() }
    }
}

impl<T> View for BaseVec<T> {
    type V = Seq<T>;

    closed spec fn view(&self) -> Seq<T> {
        self.values@
    }
}

impl<T> BaseVec<T> {
    /// The number of values that the storage has room for.
    pub closed spec fn capacity_spec(&self) -> usize {
        self.capacity
    }

    /// A sequence without values, with room for `capacity`.
    pub fn with_capacity(capacity: usize) -> (vec: BaseVec<T>)
        ensures
            vec@ == Seq::<T>::empty(),
            vec.capacity_spec() == capacity,
    {
        BaseVec { capacity, values: Vec::new() }
    }

    /// The number of values that the storage has room for.
    pub fn capacity(&self) -> (capacity: usize)
        ensures
            capacity == self.capacity_spec(),
    {
        self.capacity
    }

    /// The number of values.
    pub fn len(&self) -> (length: usize)
        ensures
            length == self@.len(),
    {
        self.values.len()
    }

    /// Whether there is no room for another value.
    pub fn is_full(&self) -> (full: bool)
        ensures
            full == (self@.len() >= self.capacity_spec()),
    {
        self.capacity <= self.values.len()
    }

    /// Whether there is room for another value.
    pub fn is_empty(&self) -> (empty: bool)
        ensures
            empty == (self@.len() < self.capacity_spec()),
    {
        !self.is_full()
    }

    /// Appends `value`, or hands it back where there is no room.
    pub fn push(&mut self, value: T) -> (pushed: Result<(), T>)
        ensures
            final(self).capacity_spec() == old(self).capacity_spec(),
            old(self)@.len() < old(self).capacity_spec() ==> pushed is Ok && final(self)@ == old(
                self,
            )@.push(value),
            old(self)@.len() >= old(self).capacity_spec() ==> pushed == Err::<(), T>(value)
                && final(self)@ == old(self)@,
    {
        if self.capacity <= self.values.len() {
            return Err(value);
        }
        self.values.push(value);
        Ok(())
    }

    /// Takes the last value off, if there is one.
    pub fn pop(&mut self) -> (popped: Option<T>)
        ensures
            final(self).capacity_spec() == old(self).capacity_spec(),
            old(self)@.len() == 0 ==> popped is None && final(self)@ == old(self)@,
            old(self)@.len() > 0 ==> popped == Some(old(self)@.last()) && final(self)@ == old(
                self,
            )@.drop_last(),
    {
        self.values.pop()
    }
}

/// A value pushed where there is room is the value popped next, and the
/// sequence is then as it was.
pub proof fn lemma_push_then_pop<T>(values: Seq<T>, value: T)
    ensures
        values.push(value).last() == value,
        values.push(value).drop_last() == values,
{
    assert(values.push(value).drop_last() =~= values);
}

} // verus!
