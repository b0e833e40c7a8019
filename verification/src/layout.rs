//! Sizes and alignments, as an allocator is asked for them.
use vstd::prelude::*;

verus! {

/// How many bytes a value takes, and the alignment that its address must have.
#[derive(Clone, Copy, Debug, PartialEq, Eq, Structural)]
pub struct Layout {
    pub size: usize,
    pub align: usize,
}

/// Whether values of type `T` take no memory.
pub open spec fn zero_sized<T>() -> bool {
    vstd::layout::size_of::<T>() == 0
}

/// A size as a request states it: one that is beyond all memory as the largest there is.
pub open spec fn clip(size: int) -> usize {
    if size > usize::MAX {
        usize::MAX
    } else {
        size as usize
    }
}

/// The first address from `address` on that is a multiple of `align`.
pub open spec fn padded(address: int, align: int) -> int {
    if address % align == 0 {
        address
    } else {
        address + align - address % align
    }
}

/// Padding leads to the next multiple of the alignment.
pub proof fn lemma_padded(address: int, align: int)
    requires
        align > 0,
    ensures
        address <= padded(address, align) < address + align,
        padded(address, align) % align == 0,
{
    let over = address % align;
    vstd::arithmetic::div_mod::lemma_fundamental_div_mod(address, align);
    if over != 0 {
        let times = address / align;
        assert((times + 1) * align == align * times + align) by (nonlinear_arith);
        vstd::arithmetic::div_mod::lemma_fundamental_div_mod_converse(
            padded(address, align),
            align,
            times + 1,
            0,
        );
    }
}

/// The layout of one value of type `T`.
pub open spec fn layout_of<T>() -> Layout {
    Layout {
        size: vstd::layout::size_of::<T>() as usize,
        align: vstd::layout::align_of::<T>() as usize,
    }
}

/// The layout of `n` values of type `T`, one after the other.
pub open spec fn layout_of_array<T>(n: usize) -> Layout {
    Layout {
        size: clip((vstd::layout::size_of::<T>() * n) as int),
        align: vstd::layout::align_of::<T>() as usize,
    }
}

/// The layout of what `first` is the layout of, and after it what `second` is the layout of.
pub open spec fn layout_of_both(first: Layout, second: Layout) -> Layout {
    Layout {
        size: clip(padded(first.size as int, second.align as int) + second.size),
        align: if first.align < second.align {
            second.align
        } else {
            first.align
        },
    }
}

impl Layout {
    /// The layout of one value of type `T`.
    pub fn of<T>() -> (layout: Layout)
        ensures
            layout == layout_of::<T>(),
            layout.size as nat == vstd::layout::size_of::<T>(),
            layout.align as nat == vstd::layout::align_of::<T>(),
            layout.align > 0,
    {
        vstd::layout::layout_for_type_is_valid::<T>();
        Layout { size: core::mem::size_of::<T>(), align: core::mem::align_of::<T>() }
    }

    /// The layout of `n` values of type `T`, one after the other.
    pub fn array<T>(n: usize) -> (layout: Layout)
        ensures
            layout == layout_of_array::<T>(n),
            layout.align > 0,
            vstd::layout::size_of::<T>() * n <= usize::MAX ==> layout.size
                == vstd::layout::size_of::<T>() * n,
            vstd::layout::size_of::<T>() * n > usize::MAX ==> layout.size == usize::MAX,
            layout.align == vstd::layout::align_of::<T>(),
    {
        let one: Layout = Layout::of::<T>();
        let size: usize = match one.size.checked_mul(n) {
            Some(size) => size,
            None => usize::MAX,
        };
        Layout { size, align: one.align }
    }

    /// By how much the end of what this is the layout of has to be padded to suit `align`.
    pub fn padding(self, align: usize) -> (padding: usize)
        requires
            align > 0,
        ensures
            self.size + padding == padded(self.size as int, align as int),
            padding < align,
            (self.size + padding) % (align as int) == 0,
    {
        proof {
            lemma_padded(self.size as int, align as int);
        }
        let over: usize = self.size % align;
        if over == 0 {
            0
        } else {
            align - over
        }
    }

    /// The layout of what this is the layout of, and after it what `other` is the layout of.
    pub fn concat(self, other: Layout) -> (layout: Layout)
        requires
            other.align > 0,
        ensures
            layout == layout_of_both(self, other),
            layout.size < usize::MAX ==> {
                &&& self.size <= layout.size - other.size < self.size + other.align
                &&& (layout.size - other.size) % (other.align as int) == 0
            },
            layout.size == usize::MAX ==> self.size + other.align + other.size > usize::MAX,
            layout.align >= self.align,
            layout.align >= other.align,
            layout.align == self.align || layout.align == other.align,
    {
        proof {
            lemma_padded(self.size as int, other.align as int);
        }
        let padding: usize = self.padding(other.align);
        Layout {
            size: self.size.saturating_add(padding).saturating_add(other.size),
            align: if self.align < other.align {
                other.align
            } else {
                self.align
            },
        }
    }
}

} // verus!
