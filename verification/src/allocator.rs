//! What grants memory to blocks and takes it back.
use crate::layout::Layout;
use vstd::prelude::*;

verus! {

/// An allocator: it decides whether a block may have the memory that it needs.
///
/// An implementation says what its two calls do through the two relations, which by default say
/// nothing. They leave it every freedom: to refuse, to reuse addresses, to keep books.
pub trait IAlloc: Sized {
    /// Whether a request for `layout`, made of an allocator in state `before`, may leave it in
    /// state `after` and be answered by `reply`: the granted address, or `None` for a refusal.
    open spec fn allocates(
        before: Self,
        layout: Layout,
        after: Self,
        reply: Option<usize>,
    ) -> bool {
        true
    }

    /// Whether giving back the address `origin` to an allocator in state `before` may leave it in
    /// state `after`.
    open spec fn frees(before: Self, origin: usize, after: Self) -> bool {
        true
    }

    /// Asks for memory of the given layout. Returns its address, or `None` if there is none.
    fn allocate(&mut self, layout: Layout) -> (reply: Option<usize>)
        ensures
            Self::allocates(*old(self), layout, *final(self), reply),
    ;

    /// Gives back the memory at `origin`, which an earlier [`IAlloc::allocate`] granted.
    fn free(&mut self, origin: usize)
        ensures
            Self::frees(*old(self), origin, *final(self)),
    ;
}

/// Whether `alloc` is sure to grant a request for `layout`.
pub open spec fn never_refuses<Alloc: IAlloc>(alloc: Alloc, layout: Layout) -> bool {
    forall|after: Alloc| !#[trigger] Alloc::allocates(alloc, layout, after, None)
}

/// The allocator that grants every request.
///
/// A block's values live in the heap's own storage, so that there is nothing to run out of: the
/// address that it grants is the lowest one with the alignment asked for.
#[derive(Clone, Copy, Debug, PartialEq, Eq, Structural)]
pub struct DefaultAllocator;

impl IAlloc for DefaultAllocator {
    open spec fn allocates(
        before: Self,
        layout: Layout,
        after: Self,
        reply: Option<usize>,
    ) -> bool {
        after == before && reply == Some(layout.align)
    }

    open spec fn frees(before: Self, origin: usize, after: Self) -> bool {
        after == before
    }

    fn allocate(&mut self, layout: Layout) -> (reply: Option<usize>) {
        Some(layout.align)
    }

    fn free(&mut self, origin: usize) {
    }
}

/// The default allocator grants every request, stays as it is, and grants an address that suits the
/// alignment.
pub proof fn law_default_allocator_grants(
    before: DefaultAllocator,
    layout: Layout,
    after: DefaultAllocator,
    reply: Option<usize>,
)
    requires
        DefaultAllocator::allocates(before, layout, after, reply),
        layout.align > 0,
    ensures
        reply is Some,
        reply->Some_0 > 0,
        reply->Some_0 as int % (layout.align as int) == 0,
        reply->Some_0 == layout.align,
        after == before,
{
    vstd::arithmetic::div_mod::lemma_mod_self_0(layout.align as int);
}

impl Default for DefaultAllocator {
    fn default() -> (alloc: Self)
        ensures
            alloc == DefaultAllocator,
    {
        DefaultAllocator
    }
}

} // verus!
