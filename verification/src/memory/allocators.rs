use crate::memory::layout::{array_size, extended, Layout, LayoutError};
use crate::memory::slice_dst::DstDescriptor;
use crate::num::round_up;
use vstd::prelude::*;

verus! {

/// The size or alignment of a requested record cannot be represented.
#[derive(Clone, Copy, Debug, PartialEq, Eq)]
pub struct OverflowedLayoutCalculation;

/// The source of the bytes has no room left.
#[derive(Clone, Copy, Debug, PartialEq, Eq)]
pub struct OutOfMemory;

/// The underlying error of an allocator that has none of its own.
#[derive(Clone, Copy, Debug, PartialEq, Eq)]
pub struct NoUnderlyingError;

impl OverflowedLayoutCalculation {
    /// What went wrong, in words.
    pub fn message(&self) -> (message: &'static str)
        ensures
            message@ == "overflowed while attempting to calculate layout"@,
    {
        "overflowed while attempting to calculate layout"
    }
}

impl OutOfMemory {
    /// What went wrong, in words.
    pub fn message(&self) -> (message: &'static str)
        ensures
            message@ == "allocator is out of memory"@,
    {
        "allocator is out of memory"
    }
}

/// Why a reservation failed.
#[derive(Debug)]
pub enum AllocateError<E> {
    /// The layout of the record asked for cannot be represented.
    OverflowedLayoutCalculation(OverflowedLayoutCalculation),
    /// The source of the bytes has no room left.
    OutOfMemory(OutOfMemory),
    /// The source of the bytes failed in a way of its own.
    Underlying(E),
}

/// The size and alignment of an open-ended record of `count` elements: the
/// header, then the elements at their alignment, the whole padded to the
/// larger of the two alignments. Nothing where that does not fit.
pub open spec fn dst_layout(dst: DstDescriptor, count: int) -> Option<(int, int)> {
    match array_size(dst.element_spec(), count) {
        None => None,
        Some(elements) => {
            let align = if dst.header_spec().align_spec() >= dst.element_spec().align_spec() {
                dst.header_spec().align_spec() as int
            } else {
                dst.element_spec().align_spec() as int
            };
            let offset = round_up(
                dst.header_spec().size_spec() as int,
                dst.element_spec().align_spec() as int,
            );
            if offset + elements + align - 1 <= isize::MAX {
                Some((round_up(offset + elements, align), align))
            } else {
                None
            }
        },
    }
}

/// The layout of an open-ended record with `element_count` trailing elements.
///
/// Every step is checked: a count whose size cannot be represented gives the
/// error, never a wrapped size.
pub fn calculate_layout_for_dst(dst: &DstDescriptor, element_count: usize) -> (layout: Result<
    Layout,
    OverflowedLayoutCalculation,
>)
    ensures
        layout is Ok <==> dst_layout(*dst, element_count as int) is Some,
        layout matches Ok(l) ==> {
            &&& dst_layout(*dst, element_count as int) == Some(
                (l.size_spec() as int, l.align_spec() as int),
            )
            &&& l.wf()
            &&& l.size_spec() % l.align_spec() == 0
        },
{
    let header: Layout = dst.header();
    let array: Layout = match Layout::array(dst.element(), element_count) {
        Ok(array) => array,
        Err(_) => {
            return Err(OverflowedLayoutCalculation);
        },
    };
    match header.extend(array) {
        Ok((layout, _)) => Ok(layout.pad_to_align()),
        Err(_) => Err(OverflowedLayoutCalculation),
    }
}

} // verus!
