//! Records with a fixed header and a trailing array whose length is known
//! only when the record is reserved.

use crate::memory::layout::Layout;
use crate::num::{lemma_power_of_two_exponent, lemma_round_up_is_multiple, round_up};
use vstd::prelude::*;

verus! {

/// Describes an open-ended record: a fixed header followed by a trailing array
/// of elements whose number is known only when the record is reserved.
#[derive(Clone, Copy, Debug)]
pub struct DstDescriptor {
    header: Layout,
    element: Layout,
}

impl DstDescriptor {
    /// The layout of the fixed header.
    pub closed spec fn header_spec(self) -> Layout {
        self.header
    }

    /// The layout of one trailing element.
    pub closed spec fn element_spec(self) -> Layout {
        self.element
    }

    /// The descriptor with the given header and element.
    pub closed spec fn spec_new(header: Layout, element: Layout) -> DstDescriptor {
        DstDescriptor { header, element }
    }

    /// A descriptor is its header and its element, and nothing else.
    pub broadcast proof fn lemma_spec_new(header: Layout, element: Layout)
        ensures
            (#[trigger] Self::spec_new(header, element)).header_spec() == header,
            Self::spec_new(header, element).element_spec() == element,
    {
    }

    /// Where the trailing array starts, counted from the start of the record:
    /// the header's size rounded up to the element's alignment. It does not
    /// depend on the number of elements.
    pub open spec fn elements_offset(self) -> int {
        round_up(self.header_spec().size_spec() as int, self.element_spec().align_spec() as int)
    }

    /// A record with the given header and elements.
    pub fn new(header: Layout, element: Layout) -> (dst: DstDescriptor)
        ensures
            dst == Self::spec_new(header, element),
            dst.header_spec() == header,
            dst.element_spec() == element,
    {
        DstDescriptor { header, element }
    }

    /// A plain array of elements: the header is empty, and the trailing array
    /// starts where the record starts.
    pub fn slice(element: Layout) -> (dst: DstDescriptor)
        ensures
            dst == Self::spec_new(Layout::spec_unit(), element),
            dst.header_spec() == Layout::spec_unit(),
            dst.element_spec() == element,
            dst.elements_offset() == 0,
    {
        let header: Layout = Layout::unit();
        let align: usize = element.align();
        proof {
            lemma_power_of_two_exponent(align);
            assert(0int % (align as int) == 0);
        }
        DstDescriptor { header, element }
    }

    /// The layout of the fixed header.
    pub fn header(&self) -> (header: Layout)
        ensures
            header == self.header_spec(),
            header.wf(),
    {
        let _ = self.header.size();
        self.header
    }

    /// The layout of one trailing element.
    pub fn element(&self) -> (element: Layout)
        ensures
            element == self.element_spec(),
            element.wf(),
    {
        let _ = self.element.size();
        self.element
    }

    /// The address of the trailing array of a record that starts at `address`.
    pub fn addr_of_slice(&self, address: usize) -> (elements: usize)
        requires
            address + self.elements_offset() <= usize::MAX,
        ensures
            elements == address + self.elements_offset(),
    {
        let align: usize = self.element.align();
        proof {
            lemma_power_of_two_exponent(align);
            lemma_round_up_is_multiple(self.header.size_spec() as int, align as int);
        }
        let size: usize = self.header.size();
        let padding: usize = self.header.padding_needed_for(align);
        address + (size + padding)
    }
}

/// A type that is an open-ended record: a header of one type followed by
/// elements of another.
pub trait SliceDst {
    /// The fixed part.
    type Header;

    /// One element of the trailing array.
    type Element;

    /// The address of the trailing array of a record that starts at
    /// `address`.
    fn addr_of_slice(address: usize) -> (elements: usize)
        requires
            address + descriptor_of::<Self::Header, Self::Element>().elements_offset()
                <= usize::MAX,
        ensures
            elements == address + descriptor_of::<Self::Header, Self::Element>().elements_offset(),
    ;
}

/// The descriptor of a record with a header of type `H` and elements of type
/// `E`.
pub open spec fn descriptor_of<H, E>() -> DstDescriptor {
    DstDescriptor::spec_new(
        Layout::spec_new(
            vstd::layout::size_of::<H>() as usize,
            vstd::layout::align_of::<H>() as usize,
        ),
        Layout::spec_new(
            vstd::layout::size_of::<E>() as usize,
            vstd::layout::align_of::<E>() as usize,
        ),
    )
}

/// The descriptor of the open-ended record type `T`.
pub fn descriptor<T: SliceDst + ?Sized>() -> (dst: DstDescriptor)
    ensures
        dst == descriptor_of::<T::Header, T::Element>(),
        dst.header_spec().wf(),
        dst.element_spec().wf(),
{
    let header: Layout = Layout::new::<T::Header>();
    let element: Layout = Layout::new::<T::Element>();
    proof {
        let d = descriptor_of::<T::Header, T::Element>();
        DstDescriptor::lemma_spec_new(
            Layout::spec_new(
                vstd::layout::size_of::<T::Header>() as usize,
                vstd::layout::align_of::<T::Header>() as usize,
            ),
            Layout::spec_new(
                vstd::layout::size_of::<T::Element>() as usize,
                vstd::layout::align_of::<T::Element>() as usize,
            ),
        );
        Layout::lemma_spec_new(
            vstd::layout::size_of::<T::Header>() as usize,
            vstd::layout::align_of::<T::Header>() as usize,
        );
        Layout::lemma_spec_new(
            vstd::layout::size_of::<T::Element>() as usize,
            vstd::layout::align_of::<T::Element>() as usize,
        );
        header.lemma_ext_equal(d.header_spec());
        element.lemma_ext_equal(d.element_spec());
    }
    DstDescriptor::new(header, element)
}

/// A descriptor without a header has its trailing array where it starts.
pub proof fn lemma_no_header_no_offset<E>()
    requires
        0 < vstd::layout::align_of::<E>() <= usize::MAX,
    ensures
        descriptor_of::<(), E>().elements_offset() == 0,
{
    broadcast use Layout::lemma_spec_new, DstDescriptor::lemma_spec_new;
    broadcast use vstd::layout::layout_of_unit_tuple;

    let held = descriptor_of::<(), E>().element_spec().align_spec() as int;
    assert(held == vstd::layout::align_of::<E>());
    assert(0int % held == 0);
}

impl<T> SliceDst for [T] {
    type Header = ();

    type Element = T;

    fn addr_of_slice(address: usize) -> (elements: usize) {
        let align: usize = Layout::new::<T>().align();
        proof {
            lemma_power_of_two_exponent(align);
            lemma_no_header_no_offset::<T>();
        }
        address
    }
}

impl SliceDst for str {
    type Header = ();

    type Element = u8;

    fn addr_of_slice(address: usize) -> (elements: usize) {
        let align: usize = Layout::new::<u8>().align();
        proof {
            lemma_power_of_two_exponent(align);
            lemma_no_header_no_offset::<u8>();
        }
        address
    }
}

} // verus!
