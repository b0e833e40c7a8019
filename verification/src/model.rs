//! What a heap is, mathematically: a sequence of blocks, and how the operations change it.
use crate::allocator::IAlloc;
use crate::discard;
use crate::heap::Grant;
use vstd::prelude::*;

verus! {

/// A block whose lifetime its counts decide.
#[verifier::ext_equal]
pub struct Shared<T, Alloc> {
    /// The strong count: the values live while it is not 0.
    pub strong: usize,
    /// The weak count: the block lives while it is not 0. All strong handles together hold one.
    pub weak: usize,
    /// How many values the memory has room for; 0 before the block is first seen as a slice.
    pub capacity: usize,
    /// The memory and the allocator that granted it; `None` if no memory was asked for.
    pub grant: Option<Grant<Alloc>>,
    /// The values; there are none once they were destroyed.
    pub items: Seq<T>,
}

/// What has become of a block.
#[verifier::ext_equal]
pub enum Status<T, Alloc> {
    /// It is counted.
    Shared(Shared<T, Alloc>),
    /// It belongs to a vector, which also holds the allocator.
    Owned { origin: Option<usize>, items: Seq<T> },
    /// It was given back. `alloc` is the allocator as it was left by that, if there was one.
    Freed { alloc: Option<Alloc> },
}

/// Whether block `b` of `h` is counted.
pub open spec fn is_shared<T, Alloc>(h: Seq<Status<T, Alloc>>, b: int) -> bool {
    0 <= b < h.len() && h[b] is Shared
}

/// The counted block `b` of `h`.
pub open spec fn at<T, Alloc>(h: Seq<Status<T, Alloc>>, b: int) -> Shared<T, Alloc> {
    h[b]->Shared_0
}

/// `h` with the counted block `s` at `b`.
pub open spec fn put<T, Alloc>(
    h: Seq<Status<T, Alloc>>,
    b: int,
    s: Shared<T, Alloc>,
) -> Seq<Status<T, Alloc>> {
    h.update(b, Status::Shared(s))
}

/// `h` with the strong count of block `b` set to `strong`.
pub open spec fn with_strong<T, Alloc>(
    h: Seq<Status<T, Alloc>>,
    b: int,
    strong: usize,
) -> Seq<Status<T, Alloc>> {
    put(h, b, Shared { strong, ..at(h, b) })
}

/// `h` with the weak count of block `b` set to `weak`.
pub open spec fn with_weak<T, Alloc>(
    h: Seq<Status<T, Alloc>>,
    b: int,
    weak: usize,
) -> Seq<Status<T, Alloc>> {
    put(h, b, Shared { weak, ..at(h, b) })
}

/// `h` with the capacity of block `b` set to `capacity`.
pub open spec fn with_capacity<T, Alloc>(
    h: Seq<Status<T, Alloc>>,
    b: int,
    capacity: usize,
) -> Seq<Status<T, Alloc>> {
    put(h, b, Shared { capacity, ..at(h, b) })
}

/// `h` with the values of block `b` replaced.
pub open spec fn with_items<T, Alloc>(
    h: Seq<Status<T, Alloc>>,
    b: int,
    items: Seq<T>,
) -> Seq<Status<T, Alloc>> {
    put(h, b, Shared { items, ..at(h, b) })
}

/// A block as it is made: one strong handle, and the weak count that the strong handles share.
pub open spec fn fresh<T, Alloc>(
    capacity: usize,
    grant: Option<Grant<Alloc>>,
    items: Seq<T>,
) -> Status<T, Alloc> {
    Status::Shared(Shared { strong: 1, weak: 1, capacity, grant, items })
}

/// Whether a block whose memory is `grant` may be given back and leave `alloc` behind: the
/// allocator is called once, with the address that it granted, and dropped as that call left it.
pub open spec fn gives_back<Alloc: IAlloc>(
    grant: Option<Grant<Alloc>>,
    alloc: Option<Alloc>,
) -> bool {
    match (grant, alloc) {
        (Some(g), Some(after)) => Alloc::frees(g.alloc, g.origin, after) && discard::discarded(
            after,
        ),
        (None, None) => true,
        _ => false,
    }
}

/// Block `b` is given back, and nothing else changes.
pub open spec fn block_freed<T, Alloc: IAlloc>(
    pre: Seq<Status<T, Alloc>>,
    post: Seq<Status<T, Alloc>>,
    b: int,
) -> bool {
    &&& post == pre.update(b, post[b])
    &&& post[b] is Freed
    &&& gives_back(at(pre, b).grant, post[b]->alloc)
}

/// One weak count of block `b` is given up, and with the last one the block.
pub open spec fn weak_released<T, Alloc: IAlloc>(
    pre: Seq<Status<T, Alloc>>,
    post: Seq<Status<T, Alloc>>,
    b: int,
) -> bool {
    if at(pre, b).weak == 1 {
        block_freed(pre, post, b)
    } else {
        post == with_weak(pre, b, (at(pre, b).weak - 1) as usize)
    }
}

/// `h` after the values of block `b` were destroyed with its last strong handle.
pub open spec fn destroyed<T, Alloc>(
    h: Seq<Status<T, Alloc>>,
    b: int,
) -> Seq<Status<T, Alloc>> {
    put(h, b, Shared { strong: 0, items: Seq::empty(), ..at(h, b) })
}

/// One strong count of block `b` is given up. With the last one the values are destroyed, and then
/// the weak count that the strong handles shared is given up.
pub open spec fn strong_released<T, Alloc: IAlloc>(
    pre: Seq<Status<T, Alloc>>,
    post: Seq<Status<T, Alloc>>,
    b: int,
) -> bool {
    if at(pre, b).strong == 1 {
        weak_released(destroyed(pre, b), post, b)
    } else {
        post == with_strong(pre, b, (at(pre, b).strong - 1) as usize)
    }
}

/// A strong handle to block `b` is dropped: its count is given up, and with the last one the values
/// are dropped.
pub open spec fn strong_dropped<T, Alloc: IAlloc>(
    pre: Seq<Status<T, Alloc>>,
    post: Seq<Status<T, Alloc>>,
    b: int,
) -> bool {
    &&& strong_released(pre, post, b)
    &&& at(pre, b).strong == 1 ==> discard::all_discarded(at(pre, b).items)
}

/// Giving up a strong count of one block does not depend on the values of another.
pub proof fn lemma_release_beside<T, Alloc: IAlloc>(
    pre: Seq<Status<T, Alloc>>,
    post: Seq<Status<T, Alloc>>,
    b: int,
    c: int,
    items: Seq<T>,
)
    requires
        b != c,
        is_shared(pre, b),
        is_shared(pre, c),
        strong_released(pre, post, b),
    ensures
        strong_released(with_items(pre, c, items), with_items(post, c, items), b),
{
    let pre_c = with_items(pre, c, items);
    let post_c = with_items(post, c, items);
    if at(pre, b).strong == 1 {
        let mid = destroyed(pre, b);
        let mid_c = destroyed(pre_c, b);
        assert(mid_c =~= with_items(mid, c, items));
        if at(pre, b).weak == 1 {
            assert(post_c =~= mid_c.update(b, post_c[b]));
        } else {
            assert(post_c =~= with_weak(mid_c, b, (at(mid_c, b).weak - 1) as usize));
        }
    } else {
        assert(post_c =~= with_strong(pre_c, b, (at(pre_c, b).strong - 1) as usize));
    }
}

/// Whether one strong handle is all that there is to block `b`.
pub open spec fn unique<T, Alloc>(h: Seq<Status<T, Alloc>>, b: int) -> bool {
    at(h, b).strong == 1 && at(h, b).weak == 1
}

/// Whether block `b` is held by a strong handle.
pub open spec fn strongly_held<T, Alloc>(h: Seq<Status<T, Alloc>>, b: int) -> bool {
    is_shared(h, b) && at(h, b).strong > 0
}

/// Whether block `b` is held by a weak handle, besides what its strong handles share.
pub open spec fn weakly_held<T, Alloc>(h: Seq<Status<T, Alloc>>, b: int) -> bool {
    is_shared(h, b) && at(h, b).weak > if at(h, b).strong > 0 {
        1int
    } else {
        0int
    }
}

/// What always holds of a counted block.
pub open spec fn shared_wf<T, Alloc>(s: Shared<T, Alloc>) -> bool {
    &&& s.weak > 0
    &&& s.strong == 0 ==> s.items.len() == 0
    &&& !crate::layout::zero_sized::<T>() ==> s.grant is Some
}

/// What always holds of a heap.
pub open spec fn heap_wf<T, Alloc>(h: Seq<Status<T, Alloc>>) -> bool {
    forall|b: int| 0 <= b < h.len() && #[trigger] h[b] is Shared ==> shared_wf(h[b]->Shared_0)
}

} // verus!
