//! What the relations that contracts speak of come to, block by block and count by count.
use crate::allocator::{DefaultAllocator, IAlloc};
use crate::arc;
use crate::arc::Arc;
use crate::counter;
use crate::counter::USIZE_TOP_BIT;
use crate::heap;
use crate::heap::{AllocPrefix, Grant};
use crate::layout;
use crate::model;
use crate::model::{Shared, Status};
use crate::slice::{ArcSlice, WeakSlice};
use crate::vec::Vec;
use crate::weak::Weak;
use vstd::prelude::*;

verus! {

/// Copy on write. Where there are other strong handles, [`Arc::make_mut`] and
/// [`Arc::try_make_mut`] leave their value as it is, whatever is written through the reference, and
/// take one count from them. The handle points to a block of its own, which holds what was written
/// to a clone of the value.
pub proof fn law_make_mut_copies_on_write<T: Clone, Alloc: IAlloc + Clone>(
    before: Arc<T, Alloc>,
    after: Arc<T, Alloc>,
    pre: Seq<Status<T, Alloc>>,
    post: Seq<Status<T, Alloc>>,
    value: T,
    changed: T,
)
    requires
        arc::made_mut(before, after, pre, post, value, changed),
        before.valid(pre),
        pre[before.raw().block as int]->Shared_0.strong > 1,
    ensures
        ({
            let b = before.raw().block as int;
            let s = pre[b]->Shared_0;
            &&& after.raw().block != b
            &&& after.raw().block == pre.len()
            &&& post.len() == pre.len() + 1
            &&& post[b] == Status::Shared(Shared { strong: (s.strong - 1) as usize, ..s })
            &&& post[b]->Shared_0.items == pre[b]->Shared_0.items
            &&& forall|c: int| 0 <= c < pre.len() && c != b ==> #[trigger] post[c] == pre[c]
            &&& post[pre.len() as int] is Shared
            &&& post[pre.len() as int]->Shared_0.items == seq![changed]
            &&& post[pre.len() as int]->Shared_0.strong == 1
            &&& post[pre.len() as int]->Shared_0.weak == 1
            &&& vstd::pervasive::strictly_cloned(s.items[0], value)
        }),
{
}

/// Where there are weak handles besides the only strong one, [`Arc::make_mut`] leaves them behind:
/// the value is dropped, and with it the handle's counts. The handle points to a block of its own,
/// which holds what was written to a clone of the value.
pub proof fn law_make_mut_leaves_weak_handles<T: Clone, Alloc: IAlloc + Clone>(
    before: Arc<T, Alloc>,
    after: Arc<T, Alloc>,
    pre: Seq<Status<T, Alloc>>,
    post: Seq<Status<T, Alloc>>,
    value: T,
    changed: T,
)
    requires
        arc::made_mut(before, after, pre, post, value, changed),
        before.valid(pre),
        pre[before.raw().block as int]->Shared_0.strong == 1,
        pre[before.raw().block as int]->Shared_0.weak > 1,
    ensures
        ({
            let b = before.raw().block as int;
            let s = pre[b]->Shared_0;
            &&& after.raw().block == pre.len()
            &&& post.len() == pre.len() + 1
            &&& post[b] == Status::Shared(
                Shared { strong: 0, weak: (s.weak - 1) as usize, items: Seq::empty(), ..s },
            )
            &&& exists|vec: std::vec::Vec<T>|
                vec@ == seq![s.items[0]] && #[trigger] call_ensures(
                    Result::<(), std::vec::Vec<T>>::ok,
                    (Err::<(), std::vec::Vec<T>>(vec),),
                    None::<()>,
                )
            &&& forall|c: int| 0 <= c < pre.len() && c != b ==> #[trigger] post[c] == pre[c]
            &&& post[pre.len() as int] is Shared
            &&& post[pre.len() as int]->Shared_0.items == seq![changed]
            &&& post[pre.len() as int]->Shared_0.strong == 1
            &&& post[pre.len() as int]->Shared_0.weak == 1
            &&& vstd::pervasive::strictly_cloned(s.items[0], value)
        }),
{
    let b = before.block();
    let placed = pre.push(model::fresh(0, after.grant(post), seq![changed]));
    assert(model::at(placed, b) == pre[b]->Shared_0);
    assert(model::at(placed, b).items =~= seq![pre[b]->Shared_0.items[0]]);
}

/// The only handle keeps its block under [`Arc::make_mut`]: the value is changed in place, and
/// nothing else.
pub proof fn law_make_mut_of_the_only_handle<T: Clone, Alloc: IAlloc + Clone>(
    before: Arc<T, Alloc>,
    after: Arc<T, Alloc>,
    pre: Seq<Status<T, Alloc>>,
    post: Seq<Status<T, Alloc>>,
    value: T,
    changed: T,
)
    requires
        arc::made_mut(before, after, pre, post, value, changed),
        before.valid(pre),
        pre[before.raw().block as int]->Shared_0.strong == 1,
        pre[before.raw().block as int]->Shared_0.weak == 1,
    ensures
        ({
            let b = before.raw().block as int;
            &&& after == before
            &&& value == pre[b]->Shared_0.items[0]
            &&& post.len() == pre.len()
            &&& post[b] == Status::Shared(Shared { items: seq![changed], ..pre[b]->Shared_0 })
            &&& forall|c: int| 0 <= c < pre.len() && c != b ==> #[trigger] post[c] == pre[c]
        }),
{
}

/// The block that [`Arc::make_mut`] asks for is asked of a clone of the allocator, in one request
/// that covers the prefix and one value, if there is an allocator and the value takes memory. A
/// refusal is the reply to that one request.
pub proof fn law_make_mut_asks_a_clone<T, Alloc: IAlloc + Clone>(
    grant: Option<Grant<Alloc>>,
    fresh: Option<Grant<Alloc>>,
    after: Alloc,
)
    ensures
        arc::regranted::<T, Alloc>(grant, fresh) ==> match (grant, fresh) {
            (Some(g), Some(f)) => vstd::layout::size_of::<T>() > 0 && exists|alloc: Alloc|
                vstd::pervasive::strictly_cloned(g.alloc, alloc) && #[trigger] Alloc::allocates(
                    alloc,
                    heap::block_layout::<T, Alloc>(1),
                    f.alloc,
                    Some(f.origin),
                ),
            (Some(g), None) => vstd::layout::size_of::<T>() == 0 && exists|alloc: Alloc| #[trigger]
                vstd::pervasive::strictly_cloned(g.alloc, alloc) && call_ensures(
                    Result::<(), Alloc>::ok,
                    (Err::<(), Alloc>(alloc),),
                    None::<()>,
                ),
            (None, f) => f is None,
        },
        arc::clone_refused::<T, Alloc>(grant, after) ==> {
            &&& vstd::layout::size_of::<T>() > 0
            &&& grant is Some
            &&& exists|alloc: Alloc|
                vstd::pervasive::strictly_cloned(grant->Some_0.alloc, alloc)
                    && #[trigger] Alloc::allocates(
                    alloc,
                    heap::block_layout::<T, Alloc>(1),
                    after,
                    None,
                )
        },
{
}

/// A strong handle that is dropped beside others takes its count with it, and nothing else.
pub proof fn law_drop_beside_others<T, Alloc: IAlloc>(
    pre: Seq<Status<T, Alloc>>,
    post: Seq<Status<T, Alloc>>,
    b: int,
)
    requires
        model::strong_dropped(pre, post, b) || model::strong_released(pre, post, b),
        0 <= b < pre.len(),
        pre[b] is Shared,
        pre[b]->Shared_0.strong > 1,
    ensures
        post.len() == pre.len(),
        post[b] == Status::Shared(
            Shared { strong: (pre[b]->Shared_0.strong - 1) as usize, ..pre[b]->Shared_0 },
        ),
        forall|c: int| 0 <= c < pre.len() && c != b ==> #[trigger] post[c] == pre[c],
{
}

/// With the last strong handle every value of its block is dropped, in the order that they have
/// there, whether or not there are weak handles. That takes one vector that holds just those
/// values, given to [`Result::ok`] as an error.
pub proof fn law_last_drop_drops_the_values<T, Alloc: IAlloc>(
    pre: Seq<Status<T, Alloc>>,
    post: Seq<Status<T, Alloc>>,
    b: int,
)
    requires
        model::strong_dropped(pre, post, b),
        0 <= b < pre.len(),
        pre[b] is Shared,
        pre[b]->Shared_0.strong == 1,
    ensures
        exists|vec: std::vec::Vec<T>|
            vec@ == pre[b]->Shared_0.items && #[trigger] call_ensures(
                Result::<(), std::vec::Vec<T>>::ok,
                (Err::<(), std::vec::Vec<T>>(vec),),
                None::<()>,
            ),
{
}

/// With the last strong handle the values leave the block, and the weak count that the strong
/// handles shared is given up: while there are weak handles the block stays, else it is given back.
pub proof fn law_last_drop_ends_the_block<T, Alloc: IAlloc>(
    pre: Seq<Status<T, Alloc>>,
    post: Seq<Status<T, Alloc>>,
    b: int,
)
    requires
        model::strong_dropped(pre, post, b) || model::strong_released(pre, post, b),
        0 <= b < pre.len(),
        pre[b] is Shared,
        pre[b]->Shared_0.strong == 1,
        pre[b]->Shared_0.weak > 0,
    ensures
        post.len() == pre.len(),
        pre[b]->Shared_0.weak > 1 ==> post[b] == Status::Shared(
            Shared {
                strong: 0,
                weak: (pre[b]->Shared_0.weak - 1) as usize,
                items: Seq::empty(),
                ..pre[b]->Shared_0
            },
        ),
        pre[b]->Shared_0.weak == 1 ==> post[b] is Freed && match pre[b]->Shared_0.grant {
            Some(g) => exists|after: Alloc|
                {
                    &&& post[b] == (Status::<T, Alloc>::Freed { alloc: Some(after) })
                    &&& #[trigger] Alloc::frees(g.alloc, g.origin, after)
                    &&& call_ensures(
                        Result::<(), Alloc>::ok,
                        (Err::<(), Alloc>(after),),
                        None::<()>,
                    )
                },
            None => post[b] == (Status::<T, Alloc>::Freed { alloc: None }),
        },
        forall|c: int| 0 <= c < pre.len() && c != b ==> #[trigger] post[c] == pre[c],
{
    if pre[b]->Shared_0.weak == 1 && pre[b]->Shared_0.grant is Some {
        let g = pre[b]->Shared_0.grant->Some_0;
        assert(Alloc::frees(g.alloc, g.origin, post[b]->alloc->Some_0));
    }
}

/// A weak handle that is dropped beside others takes its count with it, and nothing else. The last
/// one gives the block back.
pub proof fn law_weak_drop<T, Alloc: IAlloc>(
    pre: Seq<Status<T, Alloc>>,
    post: Seq<Status<T, Alloc>>,
    b: int,
)
    requires
        model::weak_released(pre, post, b),
        0 <= b < pre.len(),
        pre[b] is Shared,
        pre[b]->Shared_0.weak > 0,
    ensures
        pre[b]->Shared_0.weak > 1 ==> {
            &&& post.len() == pre.len()
            &&& post[b] == Status::Shared(
                Shared { weak: (pre[b]->Shared_0.weak - 1) as usize, ..pre[b]->Shared_0 },
            )
            &&& forall|c: int| 0 <= c < pre.len() && c != b ==> #[trigger] post[c] == pre[c]
        },
        pre[b]->Shared_0.weak == 1 ==> model::block_freed(pre, post, b),
{
}

/// A block is given back by one call: the allocator that granted its memory is told to free the
/// address that it granted, and is then dropped, in the state in which that call left it. Where no
/// memory was granted no allocator is there to be told.
pub proof fn law_block_is_given_back_once<T, Alloc: IAlloc>(
    pre: Seq<Status<T, Alloc>>,
    post: Seq<Status<T, Alloc>>,
    b: int,
)
    requires
        model::block_freed(pre, post, b),
        0 <= b < pre.len(),
        pre[b] is Shared,
    ensures
        match pre[b]->Shared_0.grant {
            Some(g) => exists|after: Alloc|
                {
                    &&& post[b] == (Status::<T, Alloc>::Freed { alloc: Some(after) })
                    &&& #[trigger] Alloc::frees(g.alloc, g.origin, after)
                    &&& call_ensures(
                        Result::<(), Alloc>::ok,
                        (Err::<(), Alloc>(after),),
                        None::<()>,
                    )
                },
            None => post[b] == (Status::<T, Alloc>::Freed { alloc: None }),
        },
        post.len() == pre.len(),
        forall|c: int| 0 <= c < pre.len() && c != b ==> #[trigger] post[c] == pre[c],
{
    if pre[b]->Shared_0.grant is Some {
        let g = pre[b]->Shared_0.grant->Some_0;
        assert(Alloc::frees(g.alloc, g.origin, post[b]->alloc->Some_0));
    }
}

/// A new handle adds one block, with one strong handle, no weak one and one value, and leaves the
/// others alone.
pub proof fn law_made_adds_a_block<T, Alloc: IAlloc>(
    pre: Seq<Status<T, Alloc>>,
    post: Seq<Status<T, Alloc>>,
    arc: Arc<T, Alloc>,
)
    requires
        arc.made(pre, post),
    ensures
        arc.raw().block == pre.len(),
        post.len() == pre.len() + 1,
        post[pre.len() as int] is Shared,
        post[pre.len() as int]->Shared_0.strong == 1,
        post[pre.len() as int]->Shared_0.weak == 1,
        post[pre.len() as int]->Shared_0.capacity == 0,
        post[pre.len() as int]->Shared_0.items == seq![arc.value(post)],
        post[pre.len() as int]->Shared_0.grant == arc.grant(post),
        forall|c: int| 0 <= c < pre.len() ==> #[trigger] post[c] == pre[c],
{
}

/// The block of one value is asked for in one request, which covers the prefix and the value. What
/// that request left of the allocator is kept with the granted address, or returned with a refusal.
/// For a value that takes no memory nothing is asked: the allocator is dropped as it came.
pub proof fn law_request_is_one_call<T, Alloc: IAlloc>(
    alloc: Alloc,
    grant: Option<Grant<Alloc>>,
    after: Alloc,
)
    ensures
        heap::granted::<T, Alloc>(alloc, grant) ==> match grant {
            Some(g) => vstd::layout::size_of::<T>() > 0 && Alloc::allocates(
                alloc,
                heap::block_layout::<T, Alloc>(1),
                g.alloc,
                Some(g.origin),
            ),
            None => vstd::layout::size_of::<T>() == 0 && call_ensures(
                Result::<(), Alloc>::ok,
                (Err::<(), Alloc>(alloc),),
                None::<()>,
            ),
        },
        heap::refused::<T, Alloc>(alloc, after) ==> vstd::layout::size_of::<T>() > 0
            && Alloc::allocates(alloc, heap::block_layout::<T, Alloc>(1), after, None),
{
}

/// The default allocator provides for values of every type.
pub proof fn law_default_allocator_provides<T>()
    ensures
        heap::provides::<T, DefaultAllocator>(DefaultAllocator),
        crate::allocator::never_refuses(
            DefaultAllocator,
            heap::block_layout::<T, DefaultAllocator>(0),
        ),
{
}

/// A block has its prefix first, then, at the next multiple of their alignment, its values, and
/// suits the alignment of both. Where that is more than a word can say, the largest size is asked
/// for. Values that take no memory have room up to the last address.
pub proof fn law_blocks_hold_prefix_and_values<T, Alloc>(n: usize, origin: usize)
    requires
        vstd::layout::align_of::<T>() > 0,
        vstd::layout::size_of::<T>() <= usize::MAX,
        vstd::layout::align_of::<T>() <= usize::MAX,
        vstd::layout::size_of::<AllocPrefix<Alloc>>() <= usize::MAX,
        vstd::layout::align_of::<AllocPrefix<Alloc>>() <= usize::MAX,
    ensures
        ({
            let prefix = vstd::layout::size_of::<AllocPrefix<Alloc>>() as int;
            let align = vstd::layout::align_of::<T>() as int;
            let values = vstd::layout::size_of::<T>() * n;
            let block = heap::block_layout::<T, Alloc>(n);
            exists|offset: int|
                {
                    &&& prefix <= offset < prefix + align
                    &&& #[trigger] (offset % align) == 0
                    &&& offset + values <= usize::MAX ==> block.size == offset + values
                    &&& offset + values > usize::MAX ==> block.size == usize::MAX
                    &&& heap::room_at::<T, Alloc>(origin) == if origin + offset > usize::MAX {
                        0
                    } else {
                        usize::MAX - origin - offset
                    }
                }
        }),
        heap::block_layout::<T, Alloc>(n).align >= vstd::layout::align_of::<T>(),
        heap::block_layout::<T, Alloc>(n).align >= vstd::layout::align_of::<AllocPrefix<Alloc>>(),
        heap::block_layout::<T, Alloc>(n).align == vstd::layout::align_of::<T>()
            || heap::block_layout::<T, Alloc>(n).align == vstd::layout::align_of::<
            AllocPrefix<Alloc>,
        >(),
{
    let prefix = vstd::layout::size_of::<AllocPrefix<Alloc>>() as int;
    let align = vstd::layout::align_of::<T>() as int;
    layout::lemma_padded(prefix, align);
    let offset = layout::padded(prefix, align);
    assert(offset % align == 0);
    assert(0 <= vstd::layout::size_of::<T>() * n);
}

/// An upgrade succeeds exactly where there is a strong handle, and then adds one to the count,
/// which else stays 0. That is so for every count that leaves the top bit free for one more.
pub proof fn law_upgrades_count(count: usize)
    requires
        count + 1 < USIZE_TOP_BIT,
    ensures
        counter::has_room(count),
        counter::upgradable(count) <==> count > 0,
        count > 0 ==> counter::upgraded(count) == count + 1,
        count == 0 ==> counter::upgraded(count) == 0,
{
    counter::lemma_top_bit();
    counter::lemma_upgraded(count);
}

/// Where the top bit is in use, or would be, an upgrade takes it off the count that it leaves.
pub proof fn law_upgrades_clear_the_top_bit(count: usize)
    requires
        count + 1 >= USIZE_TOP_BIT,
    ensures
        !counter::has_room(count),
        counter::upgradable(count) <==> count != USIZE_TOP_BIT,
        count + 1 == USIZE_TOP_BIT ==> counter::upgraded(count) == 0,
        count == USIZE_TOP_BIT ==> counter::upgraded(count) == 0,
        USIZE_TOP_BIT < count < usize::MAX ==> counter::upgraded(count) == count + 1
            - USIZE_TOP_BIT,
        count == usize::MAX ==> counter::upgraded(count) == 0,
{
    counter::lemma_top_bit();
    counter::lemma_upgraded(count);
}

/// Setting a count, the capacity or the values of a block changes that, and nothing else.
pub proof fn law_settings_are_of_one_thing<T, Alloc>(
    h: Seq<Status<T, Alloc>>,
    b: int,
    word: usize,
    items: Seq<T>,
)
    requires
        0 <= b < h.len(),
        h[b] is Shared,
    ensures
        model::with_strong(h, b, word) == h.update(
            b,
            Status::Shared(Shared { strong: word, ..h[b]->Shared_0 }),
        ),
        model::with_weak(h, b, word) == h.update(
            b,
            Status::Shared(Shared { weak: word, ..h[b]->Shared_0 }),
        ),
        model::with_capacity(h, b, word) == h.update(
            b,
            Status::Shared(Shared { capacity: word, ..h[b]->Shared_0 }),
        ),
        model::with_items(h, b, items) == h.update(
            b,
            Status::Shared(Shared { items, ..h[b]->Shared_0 }),
        ),
{
}

/// What is told of a block of a heap is what it holds: its counts and capacity are the words of its
/// prefix.
pub proof fn law_blocks_show_their_prefix<T, Alloc>(prefix: AllocPrefix<Alloc>, items: Seq<T>)
    ensures
        prefix.block_of(items).strong == prefix.strong.word,
        prefix.block_of(items).weak == prefix.weak.word,
        prefix.block_of(items).capacity == prefix.capacity.word,
        prefix.block_of(items).grant == prefix.grant,
        prefix.block_of(items).items == items,
{
}

/// A block is held by a strong handle if its strong count is not 0, by a weak one if its weak count
/// is more than what the strong ones share, and by one strong handle alone if both are 1.
pub proof fn law_counts_tell_holders<T, Alloc>(h: Seq<Status<T, Alloc>>, b: int)
    requires
        0 <= b < h.len(),
        h[b] is Shared,
    ensures
        model::is_shared(h, b),
        model::at(h, b) == h[b]->Shared_0,
        model::strongly_held(h, b) <==> h[b]->Shared_0.strong != 0,
        h[b]->Shared_0.strong != 0 ==> (model::weakly_held(h, b) <==> h[b]->Shared_0.weak >= 2),
        h[b]->Shared_0.strong == 0 ==> (model::weakly_held(h, b) <==> h[b]->Shared_0.weak >= 1),
        model::unique(h, b) <==> h[b]->Shared_0.strong == 1 && h[b]->Shared_0.weak == 1,
{
}

/// A vector with memory is shared where it is: the block keeps its values, and gets one strong
/// handle, the vector's capacity, and the vector's allocator with the address that it granted.
pub proof fn law_shared_vectors_stay_in_place<T, Alloc: IAlloc>(
    slice: ArcSlice<T, Alloc>,
    value: Vec<T, Alloc>,
    pre: Seq<Status<T, Alloc>>,
    post: Seq<Status<T, Alloc>>,
    origin: usize,
    items: Seq<T>,
)
    requires
        slice.shares(value, pre, post),
        value.inner.start.block < pre.len(),
        pre[value.inner.start.block as int] == (Status::<T, Alloc>::Owned {
            origin: Some(origin),
            items,
        }),
    ensures
        slice.raw().start == value.inner.start,
        slice.raw().end == value.inner.end,
        post == pre.update(
            value.inner.start.block as int,
            Status::Shared(
                Shared {
                    strong: 1,
                    weak: 1,
                    capacity: value.inner.capacity,
                    grant: Some(Grant { alloc: value.inner.alloc, origin }),
                    items,
                },
            ),
        ),
{
}

/// The values of a vector without memory go to a block of their own, with one strong handle: all of
/// them, in order. That block has the grant as its memory, and nothing is left in the vector's.
pub proof fn law_moved_vectors_get_a_block<T, Alloc: IAlloc>(
    slice: ArcSlice<T, Alloc>,
    value: Vec<T, Alloc>,
    grant: Grant<Alloc>,
    pre: Seq<Status<T, Alloc>>,
    post: Seq<Status<T, Alloc>>,
    origin: Option<usize>,
    items: Seq<T>,
)
    requires
        slice.moves(value, grant, pre, post),
        value.inner.start.block < pre.len(),
        pre[value.inner.start.block as int] == (Status::<T, Alloc>::Owned { origin, items }),
    ensures
        slice.raw().start.block == pre.len(),
        slice.raw().end == value.inner.end,
        post == pre.update(
            value.inner.start.block as int,
            Status::Owned { origin, items: Seq::empty() },
        ).push(
            Status::Shared(
                Shared {
                    strong: 1,
                    weak: 1,
                    capacity: if vstd::layout::size_of::<T>() == 0 {
                        heap::room_at::<T, Alloc>(grant.origin)
                    } else {
                        0
                    },
                    grant: Some(grant),
                    items,
                },
            ),
        ),
{
}

/// A vector has memory if its values take some, and it has room for any.
pub proof fn law_memory_of_vectors<T, Alloc: IAlloc>(value: Vec<T, Alloc>)
    ensures
        value.has_memory() <==> vstd::layout::size_of::<T>() != 0 && value.inner.capacity != 0,
        layout::zero_sized::<T>() <==> vstd::layout::size_of::<T>() == 0,
{
}

/// What a handle needs to be used with a heap: a strong one a strong count, a weak one a weak count
/// besides what the strong ones share, and each the values that it is to, as long as they live.
pub proof fn law_handles_that_may_be_used<T, Alloc: IAlloc>(
    h: Seq<Status<T, Alloc>>,
    arc: Arc<T, Alloc>,
    weak: Weak<T, Alloc>,
    slice: ArcSlice<T, Alloc>,
    weak_slice: WeakSlice<T, Alloc>,
)
    ensures
        arc.valid(h) <==> {
            let b = arc.raw().block as int;
            &&& 0 <= b < h.len() && h[b] is Shared
            &&& h[b]->Shared_0.strong >= 1
            &&& h[b]->Shared_0.items.len() == 1
        },
        weak.valid(h) <==> {
            let b = weak.raw().block as int;
            &&& 0 <= b < h.len() && h[b] is Shared
            &&& h[b]->Shared_0.weak >= 1
            &&& h[b]->Shared_0.strong >= 1 ==> h[b]->Shared_0.weak >= 2
            &&& h[b]->Shared_0.strong >= 1 ==> h[b]->Shared_0.items.len() == 1
        },
        slice.valid(h) <==> {
            let b = slice.raw().start.block as int;
            &&& 0 <= b < h.len() && h[b] is Shared
            &&& h[b]->Shared_0.strong >= 1
            &&& h[b]->Shared_0.items.len() == slice.raw().end
            &&& vstd::layout::size_of::<T>() > 0 ==> slice.raw().end <= h[b]->Shared_0.capacity
        },
        weak_slice.valid(h) <==> {
            let b = weak_slice.raw().start.block as int;
            &&& 0 <= b < h.len() && h[b] is Shared
            &&& h[b]->Shared_0.weak >= 1
            &&& h[b]->Shared_0.strong >= 1 ==> {
                &&& h[b]->Shared_0.weak >= 2
                &&& h[b]->Shared_0.items.len() == weak_slice.raw().end
                &&& vstd::layout::size_of::<T>() > 0 ==> weak_slice.raw().end
                    <= h[b]->Shared_0.capacity
            }
        },
{
}

/// What is read through a handle is what its block holds: an [`Arc`] shows the one value, a slice
/// and a vector all values in order.
pub proof fn law_handles_show_their_blocks<T, Alloc: IAlloc>(
    h: Seq<Status<T, Alloc>>,
    arc: Arc<T, Alloc>,
    slice: ArcSlice<T, Alloc>,
    vec: Vec<T, Alloc>,
)
    ensures
        arc.value(h) == h[arc.raw().block as int]->Shared_0.items[0],
        arc.grant(h) == h[arc.raw().block as int]->Shared_0.grant,
        slice.values(h) == h[slice.raw().start.block as int]->Shared_0.items,
        vec.values(h) == h[vec.inner.start.block as int]->Owned_items,
        vec.valid(h) <==> {
            let b = vec.inner.start.block as int;
            &&& 0 <= b < h.len() && h[b] is Owned
            &&& h[b]->Owned_items.len() == vec.inner.end
            &&& vstd::layout::size_of::<T>() > 0 ==> vec.inner.end <= vec.inner.capacity
            &&& vstd::layout::size_of::<T>() > 0 && vec.inner.capacity > 0 ==> h[b]->origin is Some
        },
{
}

/// Every counted block of a heap has a weak count, has no values once it has no strong count, and
/// has memory if its values take any.
pub proof fn law_heaps_stay_well_formed<T, Alloc>(h: Seq<Status<T, Alloc>>, b: int)
    requires
        model::heap_wf(h),
        0 <= b < h.len(),
        h[b] is Shared,
    ensures
        h[b]->Shared_0.weak > 0,
        h[b]->Shared_0.strong == 0 ==> h[b]->Shared_0.items.len() == 0,
        vstd::layout::size_of::<T>() > 0 ==> h[b]->Shared_0.grant is Some,
{
}

} // verus!
