//! The release operation that a record carries with it.

use crate::memory::layout::Layout;
use crate::num::lemma_sum_of_multiples;
use vstd::arithmetic::div_mod::lemma_fundamental_div_mod;
use vstd::prelude::*;

verus! {

/// What a free descriptor does when it is invoked.
#[derive(Clone, Copy, Debug, PartialEq, Eq, Structural)]
pub enum FreeFn {
    /// Nothing: the source of the bytes never takes single records back.
    Nothing,
    /// Hands the record back to the allocator that the context names.
    Forward,
}

/// The call that a free descriptor makes when it is invoked: the context it
/// captured, the record to take back and the record's layout.
#[derive(Clone, Copy, Debug)]
pub struct Release {
    pub context: usize,
    pub allocation: usize,
    pub layout: Layout,
}

/// A release operation bound to the allocator that produced a record, stored
/// in the record itself and invoked once, when the record is given up.
#[derive(Debug)]
pub struct FreeVtable {
    free_fn: FreeFn,
    context: usize,
}

impl FreeVtable {
    /// What the descriptor does when invoked.
    pub closed spec fn free_fn_spec(self) -> FreeFn {
        self.free_fn
    }

    /// The allocator that the descriptor is bound to.
    pub closed spec fn context_spec(self) -> usize {
        self.context
    }

    /// The descriptor that does `free_fn` for the allocator at `context`.
    pub closed spec fn spec_new(free_fn: FreeFn, context: usize) -> FreeVtable {
        FreeVtable { free_fn, context }
    }

    /// A descriptor is what it does and its context, and nothing else.
    pub broadcast proof fn lemma_spec_new(free_fn: FreeFn, context: usize)
        ensures
            (#[trigger] Self::spec_new(free_fn, context)).free_fn_spec() == free_fn,
            Self::spec_new(free_fn, context).context_spec() == context,
    {
    }

    /// The call that invoking the descriptor on a record makes, if any.
    pub open spec fn free_spec(self, allocation: usize, layout: Layout) -> Option<Release> {
        match self.free_fn_spec() {
            FreeFn::Nothing => None,
            FreeFn::Forward => Some(Release { context: self.context_spec(), allocation, layout }),
        }
    }

    /// The layout of a descriptor in a record: two words, one for what it
    /// does and one for its context.
    pub open spec fn spec_layout() -> Layout {
        Layout::spec_new(
            (2 * vstd::layout::size_of::<usize>()) as usize,
            vstd::layout::align_of::<usize>() as usize,
        )
    }

    /// The layout of a descriptor in a record: two words, one for what it
    /// does and one for its context.
    pub fn layout() -> (layout: Layout)
        ensures
            layout == Self::spec_layout(),
            layout.wf(),
            layout.size_spec() == 2 * vstd::layout::size_of::<usize>(),
            layout.align_spec() == vstd::layout::align_of::<usize>(),
            layout.size_spec() % layout.align_spec() == 0,
    {
        broadcast use Layout::lemma_spec_new;
        broadcast use vstd::layout::layout_of_primitives;
        broadcast use vstd::layout::align_properties;

        let word: Layout = Layout::new::<usize>();
        proof {
            lemma_word_layout();
            lemma_sum_of_multiples(
                word.size_spec() as int,
                word.size_spec() as int,
                word.align_spec() as int,
            );
        }
        match word.extend(word) {
            Ok((layout, _)) => {
                proof {
                    layout.lemma_ext_equal(Self::spec_layout());
                }
                layout
            },
            Err(_) => {
                proof {
                    assert(false);
                }
                word
            },
        }
    }

    /// A descriptor that does `free_fn` for the allocator at `context`.
    pub fn new(free_fn: FreeFn, context: usize) -> (vtable: FreeVtable)
        ensures
            vtable == Self::spec_new(free_fn, context),
            vtable.free_fn_spec() == free_fn,
            vtable.context_spec() == context,
    {
        FreeVtable { free_fn, context }
    }

    /// The descriptor of an allocator that never takes single records back:
    /// invoking it does nothing, and its context is null.
    pub fn new_empty() -> (vtable: FreeVtable)
        ensures
            vtable == Self::spec_new(FreeFn::Nothing, 0),
            vtable.free_fn_spec() == FreeFn::Nothing,
            vtable.context_spec() == 0,
    {
        FreeVtable { free_fn: FreeFn::Nothing, context: 0 }
    }

    /// Invokes the descriptor on the record at `allocation`, which uses it up.
    /// Returns the call to make on the allocator it is bound to, with the
    /// context it captured, or `None` where the descriptor does nothing.
    pub fn free(self, allocation: usize, layout: Layout) -> (release: Option<Release>)
        ensures
            release == self.free_spec(allocation, layout),
    {
        match self.free_fn {
            FreeFn::Nothing => None,
            FreeFn::Forward => Some(Release { context: self.context, allocation, layout }),
        }
    }
}

/// A word is four or eight bytes, aligned to a power of two that divides its
/// size.
pub proof fn lemma_word_layout()
    ensures
        vstd::layout::size_of::<usize>() == 4 || vstd::layout::size_of::<usize>() == 8,
        0 < vstd::layout::align_of::<usize>() <= vstd::layout::size_of::<usize>(),
        vstd::layout::size_of::<usize>() % vstd::layout::align_of::<usize>() == 0,
        vstd::arithmetic::power2::is_pow2(vstd::layout::align_of::<usize>() as int),
{
    broadcast use vstd::layout::layout_of_primitives;
    broadcast use vstd::layout::align_properties;

    let size = vstd::layout::size_of::<usize>() as int;
    let align = vstd::layout::align_of::<usize>() as int;
    assert(usize::BITS == 32 || usize::BITS == 64);
    assert(size * 8 == usize::BITS);
    assert(vstd::arithmetic::power2::is_pow2(align));
    assert(align > 0) by {
        reveal(vstd::arithmetic::power2::is_pow2);
    }
    lemma_fundamental_div_mod(size, align);
    assert(align <= size) by (nonlinear_arith)
        requires
            size == align * (size / align),
            size > 0,
            align > 0,
    ;
}

} // verus!
