//! Vectors whose values live in a heap, as far as they become shared slices and come from them.
use crate::allocator::{DefaultAllocator, IAlloc};
use crate::events::Event;
use crate::heap;
use crate::heap::{AllocPtr, Block, Heap};
use crate::layout;
use crate::model;
use crate::model::Status;
use crate::slice::{AllocSlice, ArcSlice};
use vstd::prelude::*;

verus! {

/// What a vector consists of.
pub struct VecInner<T, Alloc: IAlloc = DefaultAllocator> {
    /// Where its block is.
    pub start: AllocPtr<T, Alloc>,
    /// How many values it has.
    pub end: usize,
    /// How many values its memory has room for.
    pub capacity: usize,
    /// The allocator that granted its memory.
    pub alloc: Alloc,
}

/// A vector: the only owner of a block of values.
pub struct Vec<T, Alloc: IAlloc = DefaultAllocator> {
    pub inner: VecInner<T, Alloc>,
}

impl<T, Alloc: IAlloc> Vec<T, Alloc> {
    /// The block of the vector.
    pub open spec fn block(self) -> int {
        self.inner.start.block as int
    }

    /// Whether the vector may be used with a heap whose blocks are `h`: it owns its block. If the
    /// values take memory they fit its capacity, and a capacity comes with memory.
    pub open spec fn valid(self, h: Seq<Status<T, Alloc>>) -> bool {
        &&& 0 <= self.block() < h.len()
        &&& h[self.block()] is Owned
        &&& h[self.block()]->Owned_items.len() == self.inner.end
        &&& !layout::zero_sized::<T>() ==> {
            &&& self.inner.end <= self.inner.capacity
            &&& self.inner.capacity > 0 ==> h[self.block()]->origin is Some
        }
    }

    /// Whether the vector has memory: its values take some, and it has a capacity.
    pub open spec fn has_memory(self) -> bool {
        !layout::zero_sized::<T>() && self.inner.capacity > 0
    }

    /// The values of the vector.
    pub open spec fn values(self, h: Seq<Status<T, Alloc>>) -> Seq<T> {
        h[self.block()]->Owned_items
    }

    /// Attempts to make a vector of `items`, with room for `capacity` values. Only values that take
    /// memory need an allocation, and only a capacity other than 0.
    ///
    /// # Errors
    /// Returns the items and the allocator if the allocator refuses.
    pub fn try_with_items_in(
        items: std::vec::Vec<T>,
        capacity: usize,
        alloc: Alloc,
        heap: &mut Heap<T, Alloc>,
    ) -> (result: Result<Self, (std::vec::Vec<T>, Alloc)>)
        requires
            old(heap).wf(),
            items@.len() <= capacity,
        ensures
            final(heap).wf(),
            match result {
                Ok(vec) => {
                    &&& vec.block() == old(heap)@.len()
                    &&& vec.inner.end == items@.len()
                    &&& vec.inner.capacity == capacity
                    &&& vec.valid(final(heap)@)
                    &&& Event::MakeVec.happens(old(heap)@, final(heap)@)
                    &&& if layout::zero_sized::<T>() || capacity == 0 {
                        &&& vec.inner.alloc == alloc
                        &&& final(heap)@ == old(heap)@.push(
                            Status::Owned { origin: None, items: items@ },
                        )
                    } else {
                        let origin = final(heap)@[vec.block()]->origin;
                        &&& Alloc::allocates(
                            alloc,
                            heap::block_layout::<T, Alloc>(capacity),
                            vec.inner.alloc,
                            origin,
                        )
                        &&& final(heap)@ == old(heap)@.push(Status::Owned { origin, items: items@ })
                    }
                },
                Err((i, a)) => {
                    &&& i == items
                    &&& !layout::zero_sized::<T>() && capacity > 0
                    &&& Alloc::allocates(alloc, heap::block_layout::<T, Alloc>(capacity), a, None)
                    &&& *final(heap) == *old(heap)
                },
            },
    {
        let mut alloc = alloc;
        let mut origin: Option<usize> = None;
        if core::mem::size_of::<T>() != 0 && capacity != 0 {
            origin = alloc.allocate(heap::layout_of_block::<T, Alloc>(capacity));
            if origin.is_none() {
                return Err((items, alloc));
            }
        }
        let end: usize = items.len();
        let block: usize = heap.push(Block::Owned { origin, items });
        Ok(Vec { inner: VecInner { start: AllocPtr::to(block), end, capacity, alloc } })
    }

    /// How many values the vector has.
    pub fn len(&self) -> (len: usize)
        ensures
            len == self.inner.end,
    {
        self.inner.end
    }

    /// How many values the vector has room for.
    pub fn capacity(&self) -> (capacity: usize)
        ensures
            capacity == self.inner.capacity,
    {
        self.inner.capacity
    }

    /// The values of the vector.
    pub fn as_slice<'a>(&self, heap: &'a Heap<T, Alloc>) -> (values: &'a [T])
        requires
            self.valid(heap@),
        ensures
            values@ == self.values(heap@),
    {
        heap.owned(self.inner.start.block).as_slice()
    }

    /// Takes the vector apart: where its values are, the capacity of their memory, and the
    /// allocator. Values that take no memory have no capacity.
    pub fn into_raw_components(self) -> (parts: (AllocSlice<T, Alloc>, usize, Alloc))
        ensures
            parts.0.start == self.inner.start,
            parts.0.end == self.inner.end,
            parts.1 == if layout::zero_sized::<T>() {
                0
            } else {
                self.inner.capacity
            },
            parts.2 == self.inner.alloc,
    {
        let VecInner { start, end, capacity, alloc } = self.inner;
        let capacity: usize = if core::mem::size_of::<T>() == 0 {
            0
        } else {
            capacity
        };
        (AllocSlice { start, end }, capacity, alloc)
    }

    /// Attempts to make the values of a shared slice those of a vector, in place.
    ///
    /// # Errors
    /// Returns the slice if there are other handles to its block, or if its values take no memory.
    pub fn try_from(value: ArcSlice<T, Alloc>, heap: &mut Heap<T, Alloc>) -> (result: Result<
        Self,
        ArcSlice<T, Alloc>,
    >)
        requires
            old(heap).wf(),
            value.valid(old(heap)@),
        ensures
            final(heap).wf(),
            match result {
                Ok(vec) => {
                    let s = model::at(old(heap)@, value.block());
                    &&& !layout::zero_sized::<T>() && model::unique(old(heap)@, value.block())
                    &&& vec.inner.start == value.raw().start
                    &&& vec.inner.end == value.raw().end
                    &&& vec.inner.capacity == s.capacity
                    &&& vec.inner.alloc == s.grant->Some_0.alloc
                    &&& final(heap)@ == old(heap)@.update(
                        value.block(),
                        Status::Owned { origin: Some(s.grant->Some_0.origin), items: s.items },
                    )
                    &&& vec.valid(final(heap)@)
                    &&& Event::OwnSlice(value.block()).happens(old(heap)@, final(heap)@)
                },
                Err(slice) => {
                    &&& layout::zero_sized::<T>() || !model::unique(old(heap)@, value.block())
                    &&& slice == value
                    &&& *final(heap) == *old(heap)
                },
            },
    {
        if core::mem::size_of::<T>() == 0 || !ArcSlice::is_unique(&value, &*heap) {
            Err(value)
        } else {
            let AllocSlice { start, end } = value.into_inner();
            let capacity: usize = heap.prefix(start.block).capacity.load();
            let block = heap.exchange(
                start.block,
                Block::Owned { origin: None, items: std::vec::Vec::new() },
            );
            match block {
                Block::Shared { prefix, items } => match prefix.grant {
                    Some(grant) => {
                        let origin = Some(grant.origin);
                        let _ = heap.exchange(start.block, Block::Owned { origin, items });
                        assert(heap@ =~= old(heap)@.update(
                            value.block(),
                            Status::Owned { origin, items: items@ },
                        ));
                        Ok(Vec { inner: VecInner { start, end, capacity, alloc: grant.alloc } })
                    },
                    None => vstd::pervasive::unreached(),
                },
                _ => vstd::pervasive::unreached(),
            }
        }
    }
}

} // verus!
