//! The heap: the blocks that handles point to, each with the prefix that counts its handles.
use crate::allocator::IAlloc;
use crate::counter::Counter;
use crate::discard;
use crate::layout;
use crate::layout::Layout;
use crate::model;
use crate::model::{Shared, Status};
use core::marker::PhantomData;
use vstd::prelude::*;

verus! {

/// Memory that an allocator granted, with that allocator.
pub struct Grant<Alloc> {
    pub alloc: Alloc,
    pub origin: usize,
}

/// The layout of a block: its prefix, and after it `n` values of type `T`.
pub open spec fn block_layout<T, Alloc>(n: usize) -> Layout {
    layout::layout_of_both(
        layout::layout_of::<AllocPrefix<Alloc>>(),
        layout::layout_of_array::<T>(n),
    )
}

/// Where the values of a block at `origin` start.
pub open spec fn values_address<T, Alloc>(origin: usize) -> int {
    origin + layout::padded(
        layout::layout_of::<AllocPrefix<Alloc>>().size as int,
        layout::layout_of::<T>().align as int,
    )
}

/// How many values that take no memory have room from the start of a block's values on: one for
/// each address.
pub open spec fn room_at<T, Alloc>(origin: usize) -> usize {
    (usize::MAX - layout::clip(values_address::<T, Alloc>(origin))) as usize
}

/// Whether a request by `alloc` for a block for one `T` may end in `grant`. Where `T` takes no
/// memory none is asked for, and the allocator is dropped as it is.
pub open spec fn granted<T, Alloc: IAlloc>(alloc: Alloc, grant: Option<Grant<Alloc>>) -> bool {
    match grant {
        Some(g) => !layout::zero_sized::<T>() && Alloc::allocates(
            alloc,
            block_layout::<T, Alloc>(1),
            g.alloc,
            Some(g.origin),
        ),
        None => layout::zero_sized::<T>() && discard::discarded(alloc),
    }
}

/// Whether a request by `alloc` for a block for one `T` may be refused, leaving `after`.
pub open spec fn refused<T, Alloc: IAlloc>(alloc: Alloc, after: Alloc) -> bool {
    !layout::zero_sized::<T>() && Alloc::allocates(alloc, block_layout::<T, Alloc>(1), after, None)
}

/// Whether `alloc` is sure to provide for one `T`.
pub open spec fn provides<T, Alloc: IAlloc>(alloc: Alloc) -> bool {
    layout::zero_sized::<T>() || crate::allocator::never_refuses(
        alloc,
        block_layout::<T, Alloc>(1),
    )
}

/// The layout of a block: its prefix, and after it `n` values of type `T`.
pub(crate) fn layout_of_block<T, Alloc>(n: usize) -> (layout: Layout)
    ensures
        layout == block_layout::<T, Alloc>(n),
{
    Layout::of::<AllocPrefix<Alloc>>().concat(Layout::array::<T>(n))
}

/// How many values that take no memory have room in a block at `origin`.
pub(crate) fn room_in_block<T, Alloc>(origin: usize) -> (room: usize)
    ensures
        room == room_at::<T, Alloc>(origin),
{
    let prefix: Layout = Layout::of::<AllocPrefix<Alloc>>();
    let padding: usize = prefix.padding(Layout::of::<T>().align);
    usize::MAX - origin.saturating_add(prefix.size).saturating_add(padding)
}

impl<Alloc: IAlloc> Grant<Alloc> {
    /// What an allocator's reply to a request comes to: the granted memory, or the allocator back.
    pub fn settle(alloc: Alloc, reply: Option<usize>) -> (result: Result<Self, Alloc>)
        ensures
            match reply {
                Some(origin) => result == Ok::<Self, Alloc>(Grant { alloc, origin }),
                None => result == Err::<Self, Alloc>(alloc),
            },
    {
        match reply {
            Some(origin) => Ok(Grant { alloc, origin }),
            None => Err(alloc),
        }
    }

    /// Asks `alloc` for a block for one `T`. Where `T` takes no memory nothing is asked, and the
    /// allocator is dropped.
    pub fn request<T>(alloc: Alloc) -> (result: Result<Option<Self>, Alloc>)
        ensures
            match result {
                Ok(grant) => granted::<T, Alloc>(alloc, grant),
                Err(after) => refused::<T, Alloc>(alloc, after),
            },
    {
        if Layout::of::<T>().size != 0 {
            let mut alloc = alloc;
            let reply = alloc.allocate(layout_of_block::<T, Alloc>(1));
            match Grant::settle(alloc, reply) {
                Ok(grant) => Ok(Some(grant)),
                Err(alloc) => Err(alloc),
            }
        } else {
            discard::discard(alloc);
            Ok(None)
        }
    }
}

/// What precedes the values of a counted block.
pub struct AllocPrefix<Alloc> {
    /// The strong count.
    pub strong: Counter,
    /// The weak count.
    pub weak: Counter,
    /// How many values the memory has room for, once the block is seen as a slice.
    pub capacity: Counter,
    /// The memory, and the allocator that granted it.
    pub grant: Option<Grant<Alloc>>,
}

impl<Alloc> AllocPrefix<Alloc> {
    /// The counted block that this prefix and `items` make up.
    pub open spec fn block_of<T>(self, items: Seq<T>) -> Shared<T, Alloc> {
        Shared {
            strong: self.strong.word,
            weak: self.weak.word,
            capacity: self.capacity.word,
            grant: self.grant,
            items,
        }
    }
}

/// One block of a heap.
pub enum Block<T, Alloc> {
    /// A block that handles count.
    Shared { prefix: AllocPrefix<Alloc>, items: Vec<T> },
    /// A block that belongs to a vector.
    Owned { origin: Option<usize>, items: Vec<T> },
    /// A block that was given back.
    Freed { alloc: Ghost<Option<Alloc>> },
}

impl<T, Alloc> View for Block<T, Alloc> {
    type V = Status<T, Alloc>;

    open spec fn view(&self) -> Status<T, Alloc> {
        match *self {
            Block::Shared { prefix, items } => Status::Shared(prefix.block_of(items@)),
            Block::Owned { origin, items } => Status::Owned { origin, items: items@ },
            Block::Freed { alloc } => Status::Freed { alloc: alloc@ },
        }
    }
}

/// The blocks that handles point to. A block that was given back is never used again.
pub struct Heap<T, Alloc> {
    blocks: Vec<Block<T, Alloc>>,
}

impl<T, Alloc> View for Heap<T, Alloc> {
    type V = Seq<Status<T, Alloc>>;

    closed spec fn view(&self) -> Seq<Status<T, Alloc>> {
        self.blocks@.map_values(|block: Block<T, Alloc>| block@)
    }
}

impl<T, Alloc: IAlloc> Heap<T, Alloc> {
    /// What always holds of a heap: every counted block has a weak count, has values only while it
    /// has a strong count, and has memory if its values need any.
    pub open spec fn wf(self) -> bool {
        model::heap_wf(self@)
    }

    /// A heap without blocks.
    pub fn new() -> (heap: Self)
        ensures
            heap@ == Seq::<Status<T, Alloc>>::empty(),
            heap.wf(),
    {
        let heap = Heap { blocks: Vec::new() };
        assert(heap@ =~= Seq::empty());
        heap
    }

    /// Adds a block. Returns where it is.
    pub(crate) fn push(&mut self, block: Block<T, Alloc>) -> (b: usize)
        ensures
            b == old(self)@.len(),
            final(self)@ == old(self)@.push(block@),
    {
        let b: usize = self.blocks.len();
        self.blocks.push(block);
        assert(self@ =~= old(self)@.push(block@));
        b
    }

    /// Adds a block that has one strong handle.
    pub(crate) fn share(
        &mut self,
        capacity: usize,
        grant: Option<Grant<Alloc>>,
        items: Vec<T>,
    ) -> (b: usize)
        ensures
            b == old(self)@.len(),
            final(self)@ == old(self)@.push(model::fresh(capacity, grant, items@)),
    {
        let prefix = AllocPrefix {
            strong: Counter::new(1),
            weak: Counter::new(1),
            capacity: Counter::new(capacity),
            grant,
        };
        self.push(Block::Shared { prefix, items })
    }

    /// Block `b`, if there is one.
    pub(crate) fn get(&self, b: usize) -> (block: Option<&Block<T, Alloc>>)
        ensures
            match block {
                Some(block) => b < self@.len() && block@ == self@[b as int],
                None => b >= self@.len(),
            },
    {
        if b < self.blocks.len() {
            Some(&self.blocks[b])
        } else {
            None
        }
    }

    /// The prefix of a counted block.
    pub(crate) fn prefix(&self, b: usize) -> (prefix: &AllocPrefix<Alloc>)
        requires
            model::is_shared(self@, b as int),
        ensures
            model::at(self@, b as int) == prefix.block_of(model::at(self@, b as int).items),
    {
        match &self.blocks[b] {
            Block::Shared { prefix, .. } => prefix,
            _ => vstd::pervasive::unreached(),
        }
    }

    /// The prefix of a counted block, to be changed.
    pub(crate) fn prefix_mut(&mut self, b: usize) -> (prefix: &mut AllocPrefix<Alloc>)
        requires
            model::is_shared(old(self)@, b as int),
        ensures
            model::at(old(self)@, b as int) == prefix.block_of(
                model::at(old(self)@, b as int).items,
            ),
            final(self)@ == model::put(
                old(self)@,
                b as int,
                final(prefix).block_of(model::at(old(self)@, b as int).items),
            ),
    {
        match &mut self.blocks[b] {
            Block::Shared { prefix, .. } => prefix,
            _ => vstd::pervasive::unreached(),
        }
    }

    /// The values of a counted block.
    pub(crate) fn items(&self, b: usize) -> (items: &Vec<T>)
        requires
            model::is_shared(self@, b as int),
        ensures
            items@ == model::at(self@, b as int).items,
    {
        match &self.blocks[b] {
            Block::Shared { items, .. } => items,
            _ => vstd::pervasive::unreached(),
        }
    }

    /// The values of a counted block, to be changed.
    pub(crate) fn items_mut(&mut self, b: usize) -> (items: &mut Vec<T>)
        requires
            model::is_shared(old(self)@, b as int),
        ensures
            items@ == model::at(old(self)@, b as int).items,
            final(self)@ == model::with_items(old(self)@, b as int, final(items)@),
    {
        match &mut self.blocks[b] {
            Block::Shared { items, .. } => items,
            _ => vstd::pervasive::unreached(),
        }
    }

    /// Drops the values of a counted block.
    pub(crate) fn destroy(&mut self, b: usize)
        requires
            model::is_shared(old(self)@, b as int),
        ensures
            final(self)@ == model::with_items(old(self)@, b as int, Seq::empty()),
            discard::all_discarded(model::at(old(self)@, b as int).items),
    {
        let mut items: Vec<T> = Vec::new();
        core::mem::swap(&mut items, self.items_mut(b));
        discard::discard(items);
        assert(self@ =~= model::with_items(old(self)@, b as int, Seq::empty()));
    }

    /// Puts `block` in the place of block `b`, which is returned.
    pub(crate) fn exchange(&mut self, b: usize, block: Block<T, Alloc>) -> (before: Block<T, Alloc>)
        requires
            b < old(self)@.len(),
        ensures
            before@ == old(self)@[b as int],
            final(self)@ == old(self)@.update(b as int, block@),
    {
        let mut other = block;
        core::mem::swap(&mut other, &mut self.blocks[b]);
        assert(self@ =~= old(self)@.update(b as int, block@));
        other
    }

    /// The values of a vector's block.
    pub(crate) fn owned(&self, b: usize) -> (items: &Vec<T>)
        requires
            b < self@.len(),
            self@[b as int] is Owned,
        ensures
            items@ == self@[b as int]->Owned_items,
    {
        match &self.blocks[b] {
            Block::Owned { items, .. } => items,
            _ => vstd::pervasive::unreached(),
        }
    }

    /// Gives up one weak count of a counted block. With the last one the allocator is taken out of
    /// the prefix, gets the memory back, and is dropped.
    pub(crate) fn release_weak(&mut self, b: usize)
        requires
            model::is_shared(old(self)@, b as int),
            model::at(old(self)@, b as int).weak > 0,
        ensures
            model::weak_released(old(self)@, final(self)@, b as int),
    {
        if self.prefix_mut(b).weak.fetch_sub(1) != 1 {
            return ;
        }
        let block = self.exchange(b, Block::Freed { alloc: Ghost(None) });
        let ghost mut last: Option<Alloc> = None;
        match block {
            Block::Shared { prefix, .. } => match prefix.grant {
                Some(grant) => {
                    let mut alloc = grant.alloc;
                    alloc.free(grant.origin);
                    proof {
                        last = Some(alloc);
                    }
                    discard::discard(alloc);
                },
                None => {},
            },
            _ => {},
        }
        let _ = self.exchange(b, Block::Freed { alloc: Ghost(last) });
        assert(self@ =~= old(self)@.update(b as int, Status::Freed { alloc: last }));
    }
}

/// A handle without a claim: it points to a block of a heap, but holds none of its counts.
///
/// Type `T` only says what the pointee is taken for.
pub struct AllocPtr<T, Alloc> {
    pub block: usize,
    pub marker: PhantomData<(T, Alloc)>,
}

impl<T, Alloc> AllocPtr<T, Alloc> {
    /// A pointer to block `block`.
    pub fn to(block: usize) -> (ptr: Self)
        ensures
            ptr.block == block,
    {
        AllocPtr { block, marker: PhantomData }
    }

    /// The same pointer, its pointee taken for a `U`.
    pub fn cast<U>(self) -> (ptr: AllocPtr<U, Alloc>)
        ensures
            ptr.block == self.block,
    {
        AllocPtr { block: self.block, marker: PhantomData }
    }
}

impl<T, Alloc> Clone for AllocPtr<T, Alloc> {
    fn clone(&self) -> (ptr: Self)
        ensures
            ptr == *self,
    {
        AllocPtr { block: self.block, marker: self.marker }
    }
}

impl<T, Alloc> Copy for AllocPtr<T, Alloc> {

}

} // verus!
