//! What holds across operations: how the counts account for the handles, and what undoes what.
use crate::allocator::IAlloc;
use crate::arc::Arc;
use crate::counter;
use crate::events::Event;
use crate::heap::Grant;
use crate::model;
use crate::model::Status;
use crate::slice::{ArcSlice, WeakSlice};
use crate::weak::Weak;
use vstd::prelude::*;

verus! {

/// How many handles hold a count of a block.
pub struct Holders {
    /// Strong handles, to a value or to a slice, with those that were leaked.
    pub strong: nat,
    /// Weak handles, with those that were leaked.
    pub weak: nat,
}

/// A heap, with the handles to its blocks.
pub struct World<T, Alloc> {
    pub heap: Seq<Status<T, Alloc>>,
    pub holders: Seq<Holders>,
}

impl<T, Alloc: IAlloc> World<T, Alloc> {
    /// A heap without blocks.
    pub open spec fn init(self) -> bool {
        self.heap.len() == 0 && self.holders.len() == 0
    }

    /// The handles after so many strong and weak ones to block `b` were added.
    pub open spec fn holders_after(self, b: int, strong: int, weak: int) -> Seq<Holders> {
        let k = self.holders[b];
        self.holders.update(
            b,
            Holders { strong: (k.strong + strong) as nat, weak: (k.weak + weak) as nat },
        )
    }

    /// Whether block `b` has so many handles at least.
    pub open spec fn held(self, b: int, strong: nat, weak: nat) -> bool {
        &&& model::is_shared(self.heap, b)
        &&& 0 <= b < self.holders.len()
        &&& self.holders[b].strong >= strong
        &&& self.holders[b].weak >= weak
    }

    /// Whether there is a handle that `event` can be made through.
    pub open spec fn enables(self, event: Event) -> bool {
        match event {
            Event::Make | Event::MakeVec | Event::ShareVec(_) | Event::MoveVec(_) => true,
            Event::AddStrong(b) | Event::DropStrong(b) | Event::Change(b) | Event::TakeValue(b)
            | Event::AsSlice(b) | Event::OwnSlice(b) => self.held(b, 1, 0),
            Event::AddWeak(b) => self.held(b, 0, 0),
            Event::DropWeak(b) | Event::Upgrade(b) => self.held(b, 0, 1),
        }
    }

    /// The handles after `event`.
    pub open spec fn holders_then(self, event: Event) -> Seq<Holders> {
        match event {
            Event::Make | Event::MoveVec(_) => self.holders.push(Holders { strong: 1, weak: 0 }),
            Event::MakeVec => self.holders.push(Holders { strong: 0, weak: 0 }),
            Event::AddStrong(b) | Event::ShareVec(b) => self.holders_after(b, 1, 0),
            Event::DropStrong(b) | Event::TakeValue(b) | Event::OwnSlice(b) => {
                self.holders_after(b, -1, 0)
            },
            Event::AddWeak(b) => self.holders_after(b, 0, 1),
            Event::DropWeak(b) => self.holders_after(b, 0, -1),
            Event::Upgrade(b) => {
                if counter::upgradable(model::at(self.heap, b).strong) {
                    self.holders_after(b, 1, 0)
                } else {
                    self.holders
                }
            },
            Event::Change(_) | Event::AsSlice(_) => self.holders,
        }
    }

    /// Whether `event` may lead from this world to `post`: the operation is made through a handle
    /// that exists, changes the heap as it says, and leaves the handles that it leaves.
    pub open spec fn step(self, event: Event, post: Self) -> bool {
        &&& self.enables(event)
        &&& event.happens(self.heap, post.heap)
        &&& post.holders == self.holders_then(event)
    }

    /// Whether the counts of block `b` are the numbers of its handles: the strong count that of the
    /// strong ones, the weak count that of the weak ones, and one more while there is a strong one.
    /// A block without handles is not counted any more.
    pub open spec fn block_accounted(self, b: int) -> bool {
        match self.heap[b] {
            Status::Shared(s) => {
                &&& s.strong == self.holders[b].strong
                &&& s.weak == self.holders[b].weak + if self.holders[b].strong > 0 {
                    1int
                } else {
                    0int
                }
                &&& s.weak > 0
                &&& self.holders[b].strong == 0 ==> s.items.len() == 0
            },
            _ => self.holders[b].strong == 0 && self.holders[b].weak == 0,
        }
    }

    /// Whether the counts of all blocks are the numbers of their handles.
    pub open spec fn accounted(self) -> bool {
        &&& self.holders.len() == self.heap.len()
        &&& forall|b: int| 0 <= b < self.heap.len() ==> #[trigger] self.block_accounted(b)
    }
}

/// Whether `worlds` is a history: it starts without blocks, and each world leads to the next.
pub open spec fn history<T, Alloc: IAlloc>(
    worlds: Seq<World<T, Alloc>>,
    events: Seq<Event>,
) -> bool {
    &&& worlds.len() == events.len() + 1
    &&& worlds[0].init()
    &&& forall|i: int|
        0 <= i < events.len() ==> #[trigger] worlds[i].step(events[i], worlds[i + 1])
}

/// Every operation keeps the counts equal to the numbers of handles.
pub proof fn law_operations_keep_accounts<T, Alloc: IAlloc>(
    pre: World<T, Alloc>,
    event: Event,
    post: World<T, Alloc>,
)
    requires
        pre.accounted(),
        pre.step(event, post),
    ensures
        post.accounted(),
{
    counter::lemma_top_bit();
    assert forall|c: int| 0 <= c < post.heap.len() implies #[trigger] post.block_accounted(c) by {
        if c < pre.heap.len() {
            assert(pre.block_accounted(c));
        }
    }
}

/// Where the counts are the numbers of handles, an operation that changes the heap as its contract
/// says leads to such a world again.
pub proof fn law_operations_are_steps<T, Alloc: IAlloc>(
    pre: World<T, Alloc>,
    event: Event,
    heap: Seq<Status<T, Alloc>>,
)
    requires
        pre.accounted(),
        event.happens(pre.heap, heap),
    ensures
        pre.step(event, (World { heap, holders: pre.holders_then(event) })),
        (World { heap, holders: pre.holders_then(event) }).accounted(),
{
    match event.block() {
        Some(b) => assert(pre.block_accounted(b)),
        None => {},
    }
    law_operations_keep_accounts(pre, event, World { heap, holders: pre.holders_then(event) });
}

/// In every history, at every point, the counts are the numbers of handles.
pub proof fn law_counts_are_numbers_of_handles<T, Alloc: IAlloc>(
    worlds: Seq<World<T, Alloc>>,
    events: Seq<Event>,
    i: int,
)
    requires
        history(worlds, events),
        0 <= i < worlds.len(),
    ensures
        worlds[i].accounted(),
    decreases i,
{
    if i > 0 {
        law_counts_are_numbers_of_handles(worlds, events, i - 1);
        assert(worlds[i - 1].step(events[i - 1], worlds[i - 1 + 1]));
        law_operations_keep_accounts(worlds[i - 1], events[i - 1], worlds[i]);
    }
}

/// A block is counted while it has a handle, and its values live while it has a strong handle.
pub proof fn law_handles_keep_blocks<T, Alloc: IAlloc>(world: World<T, Alloc>, b: int)
    requires
        world.accounted(),
        0 <= b < world.heap.len(),
    ensures
        world.heap[b] is Shared <==> world.holders[b].strong > 0 || world.holders[b].weak > 0,
        model::strongly_held(world.heap, b) <==> world.holders[b].strong > 0,
        model::weakly_held(world.heap, b) <==> world.holders[b].weak > 0,
{
    assert(world.block_accounted(b));
}

/// A handle is the only one to its block exactly if both counts are 1.
pub proof fn law_unique_means_only_handle<T, Alloc: IAlloc>(world: World<T, Alloc>, b: int)
    requires
        world.accounted(),
        model::is_shared(world.heap, b),
    ensures
        model::unique(world.heap, b) <==> world.holders[b].strong == 1 && world.holders[b].weak
            == 0,
{
    assert(world.block_accounted(b));
}

/// The last strong handle takes the values with it, and no other does; the last handle of all takes
/// the block with it, and no other does.
pub proof fn law_last_handles_release<T, Alloc: IAlloc>(
    pre: World<T, Alloc>,
    event: Event,
    post: World<T, Alloc>,
    b: int,
)
    requires
        pre.accounted(),
        pre.step(event, post),
        event == Event::DropStrong(b) || event == Event::DropWeak(b),
    ensures
        post.holders[b].strong > 0 ==> model::is_shared(post.heap, b) && model::at(
            post.heap,
            b,
        ).items == model::at(pre.heap, b).items,
        post.holders[b].strong == 0 && post.holders[b].weak > 0 ==> model::is_shared(post.heap, b)
            && model::at(post.heap, b).items.len() == 0,
        post.holders[b].strong == 0 && post.holders[b].weak == 0 ==> post.heap[b] is Freed
            && model::gives_back(model::at(pre.heap, b).grant, post.heap[b]->alloc),
{
    assert(pre.block_accounted(b));
}

/// What an operation may do to a counted block that stays counted.
proof fn lemma_block_after<T, Alloc: IAlloc>(
    pre: World<T, Alloc>,
    event: Event,
    post: World<T, Alloc>,
    b: int,
)
    requires
        pre.accounted(),
        pre.step(event, post),
        model::is_shared(pre.heap, b),
    ensures
        post.accounted(),
        0 <= b < post.heap.len(),
        model::is_shared(post.heap, b) ==> {
            let s = model::at(pre.heap, b);
            let t = model::at(post.heap, b);
            &&& t.strong > 0 ==> s.strong > 0 && t.items.len() == s.items.len()
            &&& t.strong > 0 && event != Event::Change(b) ==> t.items == s.items
            &&& t.capacity == s.capacity || s.items.len() == 1 && t.capacity == 1
        },
{
    counter::lemma_top_bit();
    law_operations_keep_accounts(pre, event, post);
    assert(pre.block_accounted(b));
    if event.block() == Some(b) {
        assert(post.block_accounted(b));
    } else {
        law_other_blocks_stay(pre, event, post, b);
    }
}

/// The values of a block stay the same while it has a strong handle, unless they are changed
/// through a mutable reference, or leave the block with the only handle.
pub proof fn law_values_stay<T, Alloc: IAlloc>(
    pre: World<T, Alloc>,
    event: Event,
    post: World<T, Alloc>,
    b: int,
)
    requires
        pre.accounted(),
        pre.step(event, post),
        model::strongly_held(pre.heap, b),
        event != Event::Change(b),
    ensures
        post.holders[b].strong > 0 ==> model::strongly_held(post.heap, b) && model::at(
            post.heap,
            b,
        ).items == model::at(pre.heap, b).items,
{
    lemma_block_after(pre, event, post, b);
    assert(post.block_accounted(b));
}

/// While a block keeps a strong handle, every strong handle to its value may still be used.
pub proof fn law_arcs_stay_valid<T, Alloc: IAlloc>(
    pre: World<T, Alloc>,
    event: Event,
    post: World<T, Alloc>,
    arc: Arc<T, Alloc>,
)
    requires
        pre.accounted(),
        pre.step(event, post),
        arc.valid(pre.heap),
        post.holders[arc.block()].strong > 0,
    ensures
        arc.valid(post.heap),
{
    lemma_block_after(pre, event, post, arc.block());
    assert(post.block_accounted(arc.block()));
}

/// While a block keeps a strong handle, every strong handle to its slice may still be used.
pub proof fn law_arc_slices_stay_valid<T, Alloc: IAlloc>(
    pre: World<T, Alloc>,
    event: Event,
    post: World<T, Alloc>,
    slice: ArcSlice<T, Alloc>,
)
    requires
        pre.accounted(),
        pre.step(event, post),
        slice.valid(pre.heap),
        post.holders[slice.block()].strong > 0,
    ensures
        slice.valid(post.heap),
{
    lemma_block_after(pre, event, post, slice.block());
    assert(post.block_accounted(slice.block()));
}

/// While a block keeps a weak handle, every weak handle to its value may still be used.
pub proof fn law_weaks_stay_valid<T, Alloc: IAlloc>(
    pre: World<T, Alloc>,
    event: Event,
    post: World<T, Alloc>,
    weak: Weak<T, Alloc>,
)
    requires
        pre.accounted(),
        pre.step(event, post),
        weak.valid(pre.heap),
        post.holders[weak.block()].weak > 0,
    ensures
        weak.valid(post.heap),
{
    lemma_block_after(pre, event, post, weak.block());
    assert(post.block_accounted(weak.block()));
}

/// While a block keeps a weak handle, every weak handle to its slice may still be used.
pub proof fn law_weak_slices_stay_valid<T, Alloc: IAlloc>(
    pre: World<T, Alloc>,
    event: Event,
    post: World<T, Alloc>,
    weak: WeakSlice<T, Alloc>,
)
    requires
        pre.accounted(),
        pre.step(event, post),
        weak.valid(pre.heap),
        post.holders[weak.block()].weak > 0,
    ensures
        weak.valid(post.heap),
{
    lemma_block_after(pre, event, post, weak.block());
    assert(post.block_accounted(weak.block()));
}

/// What happens to one block does not change another.
pub proof fn law_other_blocks_stay<T, Alloc: IAlloc>(
    pre: World<T, Alloc>,
    event: Event,
    post: World<T, Alloc>,
    b: int,
)
    requires
        pre.accounted(),
        pre.step(event, post),
        0 <= b < pre.heap.len(),
        event.block() != Some(b),
    ensures
        post.heap[b] == pre.heap[b],
        post.holders[b] == pre.holders[b],
{
}

/// A block that was given back stays so: its memory is given back once.
pub proof fn law_freed_is_final<T, Alloc: IAlloc>(
    pre: World<T, Alloc>,
    event: Event,
    post: World<T, Alloc>,
    b: int,
)
    requires
        pre.accounted(),
        pre.step(event, post),
        0 <= b < pre.heap.len(),
        pre.heap[b] is Freed,
    ensures
        post.heap[b] == pre.heap[b],
{
}

/// Once a block has no strong handle it never gets one again, so that upgrades fail for good.
pub proof fn law_no_resurrection<T, Alloc: IAlloc>(
    pre: World<T, Alloc>,
    event: Event,
    post: World<T, Alloc>,
    b: int,
)
    requires
        pre.accounted(),
        pre.step(event, post),
        model::is_shared(pre.heap, b),
        model::at(pre.heap, b).strong == 0,
    ensures
        post.holders[b].strong == 0,
        model::is_shared(post.heap, b) ==> model::at(post.heap, b).strong == 0
            && !counter::upgradable(model::at(post.heap, b).strong),
{
    assert(pre.block_accounted(b));
    law_operations_keep_accounts(pre, event, post);
    assert(post.block_accounted(b));
}

/// Once a block has no strong handle it has none at any later point.
proof fn lemma_strong_handles_end<T, Alloc: IAlloc>(
    worlds: Seq<World<T, Alloc>>,
    events: Seq<Event>,
    b: int,
    i: int,
    j: int,
)
    requires
        history(worlds, events),
        0 <= i <= j < worlds.len(),
        0 <= b < worlds[i].heap.len(),
        !(worlds[i].heap[b] is Owned),
        worlds[i].holders[b].strong == 0,
    ensures
        0 <= b < worlds[j].heap.len(),
        !(worlds[j].heap[b] is Owned),
        worlds[j].holders[b].strong == 0,
    decreases j,
{
    law_counts_are_numbers_of_handles(worlds, events, j);
    if i < j {
        lemma_strong_handles_end(worlds, events, b, i, j - 1);
        law_counts_are_numbers_of_handles(worlds, events, j - 1);
        assert(worlds[j - 1].step(events[j - 1], worlds[j - 1 + 1]));
        assert(worlds[j - 1].block_accounted(b));
        assert(worlds[j].block_accounted(b));
        if worlds[j - 1].heap[b] is Shared {
            law_no_resurrection(worlds[j - 1], events[j - 1], worlds[j], b);
        } else {
            law_freed_is_final(worlds[j - 1], events[j - 1], worlds[j], b);
        }
    }
}

/// In every history the values of a block end once: with its last strong handle, after which none
/// is dropped any more, or changed through, or made.
pub proof fn law_values_end_once<T, Alloc: IAlloc>(
    worlds: Seq<World<T, Alloc>>,
    events: Seq<Event>,
    b: int,
    i: int,
    j: int,
)
    requires
        history(worlds, events),
        0 <= i < j < events.len(),
        events[i] == Event::DropStrong(b),
        worlds[i].heap[b]->Shared_0.strong == 1,
    ensures
        events[j] != Event::DropStrong(b),
        events[j] != Event::AddStrong(b),
        events[j] != Event::Change(b),
        events[j] != Event::TakeValue(b),
        events[j] != Event::AsSlice(b),
        events[j] != Event::OwnSlice(b),
        events[j] != Event::ShareVec(b),
        worlds[j].heap[b] is Shared ==> worlds[j].heap[b]->Shared_0.items.len() == 0,
{
    law_counts_are_numbers_of_handles(worlds, events, i);
    assert(worlds[i].step(events[i], worlds[i + 1]));
    assert(worlds[i].block_accounted(b));
    law_counts_are_numbers_of_handles(worlds, events, i + 1);
    assert(worlds[i + 1].block_accounted(b));
    lemma_strong_handles_end(worlds, events, b, i + 1, j);
    law_counts_are_numbers_of_handles(worlds, events, j);
    assert(worlds[j].step(events[j], worlds[j + 1]));
    assert(worlds[j].block_accounted(b));
}

/// Making another strong handle and dropping it leaves the heap as it was.
pub proof fn law_clone_then_drop<T, Alloc: IAlloc>(
    pre: Seq<Status<T, Alloc>>,
    post: Seq<Status<T, Alloc>>,
    b: int,
)
    requires
        model::strongly_held(pre, b),
        model::at(pre, b).strong < usize::MAX,
        model::strong_released(
            model::with_strong(pre, b, model::at(pre, b).strong.wrapping_add(1)),
            post,
            b,
        ),
    ensures
        post == pre,
{
    assert(post =~= pre);
}

/// Making a weak handle and dropping it leaves the heap as it was.
pub proof fn law_downgrade_then_drop<T, Alloc: IAlloc>(
    pre: Seq<Status<T, Alloc>>,
    post: Seq<Status<T, Alloc>>,
    b: int,
)
    requires
        model::heap_wf(pre),
        model::is_shared(pre, b),
        model::at(pre, b).weak < usize::MAX,
        model::weak_released(
            model::with_weak(pre, b, model::at(pre, b).weak.wrapping_add(1)),
            post,
            b,
        ),
    ensures
        post == pre,
{
    assert(post =~= pre);
}

/// Upgrading a weak handle and dropping the strong handle that comes of it leaves the heap as it
/// was.
pub proof fn law_upgrade_then_drop<T, Alloc: IAlloc>(
    pre: Seq<Status<T, Alloc>>,
    post: Seq<Status<T, Alloc>>,
    b: int,
)
    requires
        model::strongly_held(pre, b),
        counter::has_room(model::at(pre, b).strong),
        model::strong_released(
            model::with_strong(pre, b, counter::upgraded(model::at(pre, b).strong)),
            post,
            b,
        ),
    ensures
        post == pre,
{
    counter::lemma_top_bit();
    counter::lemma_upgraded(model::at(pre, b).strong);
    law_clone_then_drop(pre, post, b);
}

/// A new handle is the only one to its block, so that the value that it was made of may be
/// changed, or taken out again.
pub proof fn law_new_is_unique<T, Alloc: IAlloc>(
    pre: Seq<Status<T, Alloc>>,
    post: Seq<Status<T, Alloc>>,
    arc: Arc<T, Alloc>,
)
    requires
        arc.made(pre, post),
    ensures
        arc.valid(post),
        model::unique(post, arc.block()),
{
}

/// A handle to a value that becomes one to a slice (`ArcSlice::from`) owns as much as before: the
/// counts and the values stay, so that the only handle is still the only one.
pub proof fn law_as_slice_keeps_ownership<T, Alloc: IAlloc>(h: Seq<Status<T, Alloc>>, b: int)
    requires
        model::strongly_held(h, b),
    ensures
        ({
            let post = model::with_capacity(h, b, 1);
            &&& model::strongly_held(post, b)
            &&& model::at(post, b).strong == model::at(h, b).strong
            &&& model::at(post, b).weak == model::at(h, b).weak
            &&& model::at(post, b).items == model::at(h, b).items
            &&& model::unique(post, b) <==> model::unique(h, b)
        }),
{
}

/// Where a handle that is not the only strong one is exchanged for one to a clone of the value
/// (`Arc::make_mut`), the value that the other handles see stays the same, whatever becomes of the
/// clone.
pub proof fn law_make_mut_spares_others<T, Alloc: IAlloc>(
    pre: Seq<Status<T, Alloc>>,
    post: Seq<Status<T, Alloc>>,
    b: int,
    grant: Option<Grant<Alloc>>,
    value: T,
)
    requires
        model::strongly_held(pre, b),
        model::at(pre, b).strong > 1,
        model::strong_released(pre.push(model::fresh(0, grant, seq![value])), post, b),
    ensures
        model::strongly_held(post, b),
        model::at(post, b).items == model::at(pre, b).items,
        model::at(post, b).strong == model::at(pre, b).strong - 1,
        model::unique(post, pre.len() as int),
        model::at(post, pre.len() as int).items == seq![value],
{
}

/// Sharing the block of a vector and making a vector of it again leaves the heap as it was, and
/// gives back the allocator and the capacity.
pub proof fn law_share_then_own<T, Alloc: IAlloc>(
    pre: Seq<Status<T, Alloc>>,
    b: int,
    capacity: usize,
    alloc: Alloc,
    origin: usize,
    items: Seq<T>,
)
    requires
        0 <= b < pre.len(),
        pre[b] == (Status::<T, Alloc>::Owned { origin: Some(origin), items }),
    ensures
        ({
            let shared = pre.update(
                b,
                model::fresh(capacity, Some(Grant { alloc, origin }), items),
            );
            let s = model::at(shared, b);
            &&& model::unique(shared, b)
            &&& s.capacity == capacity
            &&& s.grant->Some_0.alloc == alloc
            &&& shared.update(
                b,
                Status::Owned { origin: Some(s.grant->Some_0.origin), items: s.items },
            ) == pre
        }),
{
    let shared = pre.update(b, model::fresh(capacity, Some(Grant { alloc, origin }), items));
    let s = model::at(shared, b);
    assert(shared.update(
        b,
        Status::Owned { origin: Some(s.grant->Some_0.origin), items: s.items },
    ) =~= pre);
}

} // verus!
