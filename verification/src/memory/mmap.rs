use crate::memory::allocators::OutOfMemory;
use crate::memory::layout::{lemma_isize_top_aligned, Layout};
use crate::num::{align_up, lemma_power_of_two_exponent, round_up};
use vstd::arithmetic::power2::is_pow2;
use vstd::prelude::*;

verus! {

/// The granularity at which memory is mapped.
pub const MAPPING_ALIGNMENT: usize = 0x1000;

/// Memory that is mapped from the system page by page.
#[derive(Clone, Copy, Debug, Default)]
pub struct MemoryMapped;

impl MemoryMapped {
    /// The size of the mapping that holds a block of layout `layout`: its
    /// size rounded up to the granularity of mappings. There is no such
    /// mapping where that size, aligned so, is no valid layout.
    pub fn mapped_size(layout: Layout) -> (size: Result<usize, OutOfMemory>)
        requires
            layout.align_spec() <= MAPPING_ALIGNMENT,
        ensures
            size is Ok <==> layout.size_spec() + MAPPING_ALIGNMENT - 1 <= isize::MAX,
            size matches Ok(s) ==> s == round_up(
                layout.size_spec() as int,
                MAPPING_ALIGNMENT as int,
            ),
    {
        proof {
            lemma_mapping_alignment();
        }
        match Layout::from_size_align(layout.size(), MAPPING_ALIGNMENT) {
            Ok(aligned) => Ok(aligned.pad_to_align().size()),
            Err(_) => Err(OutOfMemory),
        }
    }

    /// The size to unmap for a block of layout `layout` where pages have
    /// `page_size` bytes: its size rounded up to whole pages.
    pub fn unmapped_size(layout: Layout, page_size: usize) -> (size: usize)
        requires
            is_pow2(page_size as int),
        ensures
            size == round_up(layout.size_spec() as int, page_size as int),
    {
        let bytes: usize = layout.size();
        proof {
            lemma_power_of_two_exponent(layout.align_spec());
            lemma_isize_top_aligned(page_size);
        }
        align_up(bytes, page_size)
    }
}

/// The granularity of mappings is a power of two.
pub proof fn lemma_mapping_alignment()
    ensures
        is_pow2(MAPPING_ALIGNMENT as int),
{
    reveal_with_fuel(is_pow2, 14);
}

} // verus!
