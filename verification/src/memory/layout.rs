//! Sizes and alignments of blocks of memory, and how blocks are laid out one
//! after the other.

use crate::num::{
    is_power_of_two, lemma_power_of_two_divides, lemma_power_of_two_exponent,
    lemma_round_up_is_least, lemma_round_up_is_multiple, lemma_sum_of_multiples, round_up,
};
use vstd::arithmetic::div_mod::*;
use vstd::arithmetic::power::*;
use vstd::arithmetic::power2::*;
use vstd::prelude::*;

verus! {

/// A size and an alignment describe a block of memory when the alignment is a
/// power of two and the size, rounded up to the alignment, fits an `isize`.
pub open spec fn valid_layout(size: int, align: int) -> bool {
    is_pow2(align) && 0 <= size && size + align - 1 <= isize::MAX
}

/// The bytes to add after `size` bytes so that what follows starts at a
/// multiple of `align`.
pub open spec fn padding_needed(size: int, align: int) -> int
    recommends
        align > 0,
{
    round_up(size, align) - size
}

/// The size and alignment of a block of memory.
#[derive(Clone, Copy, Debug)]
pub struct Layout {
    size: usize,
    align: usize,
}

/// The parameters given do not describe a block of memory.
#[derive(Clone, Copy, Debug, PartialEq, Eq)]
pub struct LayoutError;

/// What `Layout::extend` computes: the combined size and alignment and the
/// offset of the second part, or nothing where the size does not fit.
pub open spec fn extended(first: Layout, next: Layout) -> Option<(int, int, int)> {
    let align = if first.align_spec() >= next.align_spec() {
        first.align_spec() as int
    } else {
        next.align_spec() as int
    };
    let offset = round_up(first.size_spec() as int, next.align_spec() as int);
    let size = offset + next.size_spec();
    if size + align - 1 <= isize::MAX {
        Some((size, align, offset))
    } else {
        None
    }
}

/// What `Layout::array` computes: the size of `count` elements laid out one
/// after the other, each padded to its alignment, or nothing where it does not
/// fit.
pub open spec fn array_size(element: Layout, count: int) -> Option<int> {
    let stride = round_up(element.size_spec() as int, element.align_spec() as int);
    if stride * count + element.align_spec() - 1 <= isize::MAX {
        Some(stride * count)
    } else {
        None
    }
}

impl Layout {
    /// The size in bytes.
    pub closed spec fn size_spec(self) -> usize {
        self.size
    }

    /// The alignment in bytes.
    pub closed spec fn align_spec(self) -> usize {
        self.align
    }

    /// The layout with the given size and alignment.
    pub closed spec fn spec_new(size: usize, align: usize) -> Layout {
        Layout { size, align }
    }

    /// A layout is its size and its alignment, and nothing else.
    pub broadcast proof fn lemma_spec_new(size: usize, align: usize)
        ensures
            (#[trigger] Self::spec_new(size, align)).size_spec() == size,
            Self::spec_new(size, align).align_spec() == align,
    {
    }

    /// Layouts of equal size and alignment are equal.
    pub proof fn lemma_ext_equal(self, other: Layout)
        requires
            self.size_spec() == other.size_spec(),
            self.align_spec() == other.align_spec(),
        ensures
            self == other,
    {
    }

    #[verifier::type_invariant]
    pub closed spec fn inv(self) -> bool {
        valid_layout(self.size as int, self.align as int)
    }

    /// Size and alignment describe a block of memory. Holds of every layout
    /// that a program can hold.
    pub open spec fn wf(self) -> bool {
        valid_layout(self.size_spec() as int, self.align_spec() as int)
    }

    /// The layout of `size` bytes at `align`, where that is a valid layout.
    pub fn from_size_align(size: usize, align: usize) -> (layout: Result<Layout, LayoutError>)
        ensures
            layout is Ok <==> valid_layout(size as int, align as int),
            layout is Ok ==> layout.unwrap().size_spec() == size && layout.unwrap().align_spec()
                == align && layout.unwrap().wf(),
    {
        if !is_power_of_two(align) {
            return Err(LayoutError);
        }
        proof {
            lemma_power_of_two_exponent(align);
        }
        let limit: usize = isize::MAX as usize;
        if align - 1 > limit || size > limit - (align - 1) {
            return Err(LayoutError);
        }
        Ok(Layout { size, align })
    }

    /// The layout of a value without bytes: size zero, alignment one.
    pub closed spec fn spec_unit() -> Layout {
        Layout { size: 0, align: 1 }
    }

    /// The layout of a value without bytes has size zero and alignment one.
    pub proof fn lemma_spec_unit()
        ensures
            Self::spec_unit().size_spec() == 0,
            Self::spec_unit().align_spec() == 1,
            Self::spec_unit().wf(),
    {
        reveal(is_pow2);
    }

    /// The layout of a value without bytes: size zero, alignment one.
    pub fn unit() -> (layout: Layout)
        ensures
            layout == Self::spec_unit(),
            layout.size_spec() == 0,
            layout.align_spec() == 1,
            layout.wf(),
    {
        proof {
            reveal(is_pow2);
        }
        Layout { size: 0, align: 1 }
    }

    /// The layout of a value of type `T`.
    pub fn new<T>() -> (layout: Layout)
        ensures
            layout.size_spec() == vstd::layout::size_of::<T>(),
            layout.align_spec() == vstd::layout::align_of::<T>(),
            layout.wf(),
    {
        vstd::layout::layout_for_type_is_valid::<T>();
        let size: usize = core::mem::size_of::<T>();
        let align: usize = core::mem::align_of::<T>();
        proof {
            lemma_type_layout_valid(size, align);
        }
        Layout { size, align }
    }

    /// The size in bytes.
    pub fn size(&self) -> (size: usize)
        ensures
            size == self.size_spec(),
            self.wf(),
    {
        proof {
            use_type_invariant(self);
        }
        self.size
    }

    /// The alignment in bytes, a power of two.
    pub fn align(&self) -> (align: usize)
        ensures
            align == self.align_spec(),
            self.wf(),
    {
        proof {
            use_type_invariant(self);
        }
        self.align
    }

    /// The bytes to add after this layout so that a block of alignment `align`
    /// can follow.
    pub fn padding_needed_for(&self, align: usize) -> (padding: usize)
        requires
            is_pow2(align as int),
        ensures
            padding == padding_needed(self.size_spec() as int, align as int),
            padding < align,
    {
        proof {
            use_type_invariant(self);
            lemma_power_of_two_exponent(align);
            lemma_mod_bound(self.size as int, align as int);
        }
        let over: usize = self.size % align;
        if over == 0 {
            0
        } else {
            align - over
        }
    }

    /// This layout with its size rounded up to a multiple of its alignment.
    pub fn pad_to_align(&self) -> (padded: Layout)
        ensures
            padded.size_spec() == round_up(self.size_spec() as int, self.align_spec() as int),
            padded.align_spec() == self.align_spec(),
            padded.size_spec() % padded.align_spec() == 0,
            padded.wf(),
    {
        proof {
            use_type_invariant(self);
            lemma_power_of_two_exponent(self.align);
            lemma_round_up_is_multiple(self.size as int, self.align as int);
            lemma_isize_top_aligned(self.align);
            let top: int = isize::MAX + 1;
            lemma_mod_multiples_basic(-1, self.align as int);
            assert((-1) * (self.align as int) == -(self.align as int));
            lemma_sum_of_multiples(top, -(self.align as int), self.align as int);
            lemma_round_up_is_least(self.size as int, self.align as int, top - self.align);
        }
        let padding: usize = self.padding_needed_for(self.align);
        Layout { size: self.size + padding, align: self.align }
    }

    /// The layout of this block followed by `next`, with the padding that
    /// `next` needs in between, and the offset at which `next` starts. The
    /// result is not padded at its end.
    pub fn extend(&self, next: Layout) -> (combined: Result<(Layout, usize), LayoutError>)
        ensures
            combined is Ok <==> extended(*self, next) is Some,
            combined is Ok ==> {
                let (layout, offset) = combined.unwrap();
                &&& extended(*self, next) == Some(
                    (layout.size_spec() as int, layout.align_spec() as int, offset as int),
                )
                &&& layout.wf()
            },
    {
        proof {
            use_type_invariant(self);
            use_type_invariant(&next);
            lemma_power_of_two_exponent(next.align);
            lemma_round_up_is_multiple(self.size as int, next.align as int);
        }
        let align: usize = if self.align >= next.align {
            self.align
        } else {
            next.align
        };
        let padding: usize = self.padding_needed_for(next.align);
        let offset: usize = match self.size.checked_add(padding) {
            Some(offset) => offset,
            None => {
                return Err(LayoutError);
            },
        };
        let size: usize = match offset.checked_add(next.size) {
            Some(size) => size,
            None => {
                return Err(LayoutError);
            },
        };
        let limit: usize = isize::MAX as usize;
        if size > limit - (align - 1) {
            return Err(LayoutError);
        }
        Ok((Layout { size, align }, offset))
    }

    /// The layout of `count` blocks of layout `element`, one after the other,
    /// each padded to the element's alignment.
    pub fn array(element: Layout, count: usize) -> (array: Result<Layout, LayoutError>)
        ensures
            array is Ok <==> array_size(element, count as int) is Some,
            array is Ok ==> {
                &&& array_size(element, count as int) == Some(array.unwrap().size_spec() as int)
                &&& array.unwrap().align_spec() == element.align_spec()
                &&& array.unwrap().wf()
            },
    {
        let stride: usize = element.pad_to_align().size();
        let align: usize = element.align();
        proof {
            lemma_power_of_two_exponent(align);
        }
        let limit: usize = isize::MAX as usize;
        match stride.checked_mul(count) {
            Some(size) => {
                if size > limit - (align - 1) {
                    Err(LayoutError)
                } else {
                    Ok(Layout { size, align })
                }
            },
            None => Err(LayoutError),
        }
    }
}

/// A valid layout stays valid when its size is rounded up to its alignment.
pub proof fn lemma_padded_layout_valid(size: int, align: int)
    requires
        valid_layout(size, align),
        align <= usize::MAX,
    ensures
        valid_layout(round_up(size, align), align),
{
    assert(align > 0) by {
        reveal(is_pow2);
    }
    lemma_isize_top_aligned(align as usize);
    lemma_round_up_is_multiple(size, align);
    let top: int = isize::MAX + 1;
    lemma_mod_multiples_basic(-1, align);
    assert((-1) * align == -align);
    lemma_sum_of_multiples(top, -align, align);
    lemma_round_up_is_least(size, align, top - align);
}

/// One past the largest `isize` is a multiple of every power of two that a
/// `usize` holds.
pub proof fn lemma_isize_top_aligned(align: usize)
    requires
        is_pow2(align as int),
    ensures
        (isize::MAX + 1) % (align as int) == 0,
        0 < align <= isize::MAX + 1,
{
    let n = lemma_power_of_two_exponent(align);
    let top: int = isize::MAX + 1;
    lemma2_to64();
    lemma2_to64_rest();
    assert(usize::BITS == 32 || usize::BITS == 64);
    let high: nat = (usize::BITS - 1) as nat;
    assert(top == pow2(high));
    lemma_pow2(high);
    assert(is_pow2_exists(top));
    is_pow2_equiv(top);
    if n < high {
        lemma_pow2_strictly_increases(n, high);
    }
    lemma_power_of_two_divides(align as int, top);
}

/// The size and alignment that the language gives a type meet `valid_layout`.
pub proof fn lemma_type_layout_valid(size: usize, align: usize)
    requires
        vstd::layout::valid_layout(size, align),
    ensures
        valid_layout(size as int, align as int),
{
    lemma_isize_top_aligned(align);
    let top: int = isize::MAX + 1;
    lemma_fundamental_div_mod(top, align as int);
    lemma_fundamental_div_mod(isize::MAX as int, align as int);
    lemma_mod_bound(isize::MAX as int, align as int);
    let q = top / (align as int);
    let r = (isize::MAX as int) % (align as int);
    let p = (isize::MAX as int) / (align as int);
    assert(r == align - 1) by (nonlinear_arith)
        requires
            top == align * q,
            top - 1 == align * p + r,
            0 <= r < align,
    ;
}

} // verus!
