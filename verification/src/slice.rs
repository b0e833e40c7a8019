//! Strong and weak handles to slices.
use crate::allocator;
use crate::allocator::{DefaultAllocator, IAlloc};
use crate::arc::Arc;
use crate::counter;
use crate::counter::Counter;
use crate::events::Event;
use crate::heap;
use crate::heap::{AllocPtr, AllocPrefix, Block, Grant, Heap};
use crate::layout;
use crate::model;
use crate::model::Status;
use crate::vec::{Vec, VecInner};
use vstd::prelude::*;

verus! {

/// Where a slice is: at the start of a block.
pub struct AllocSlice<T, Alloc> {
    /// The block.
    pub start: AllocPtr<T, Alloc>,
    /// How many values there are from the start to the end.
    pub end: usize,
}

impl<T, Alloc> Clone for AllocSlice<T, Alloc> {
    fn clone(&self) -> (slice: Self)
        ensures
            slice == *self,
    {
        AllocSlice { start: self.start, end: self.end }
    }
}

impl<T, Alloc> Copy for AllocSlice<T, Alloc> {

}

/// A strong handle to a slice whose values live in a heap.
pub struct ArcSlice<T, Alloc: IAlloc = DefaultAllocator> {
    inner: AllocSlice<T, Alloc>,
}

impl<T, Alloc: IAlloc> ArcSlice<T, Alloc> {
    /// Where the slice is.
    pub closed spec fn raw(self) -> AllocSlice<T, Alloc> {
        self.inner
    }

    /// The block that the handle points to.
    pub open spec fn block(self) -> int {
        self.raw().start.block as int
    }

    /// Whether the handle may be used with a heap whose blocks are `h`: the strong count of its
    /// block covers it, and the values of the block are those of the slice. They fit the block's
    /// capacity, if they take memory.
    pub open spec fn valid(self, h: Seq<Status<T, Alloc>>) -> bool {
        &&& model::strongly_held(h, self.block())
        &&& model::at(h, self.block()).items.len() == self.raw().end
        &&& !layout::zero_sized::<T>() ==> self.raw().end <= model::at(h, self.block()).capacity
    }

    /// The values of the slice.
    pub open spec fn values(self, h: Seq<Status<T, Alloc>>) -> Seq<T> {
        model::at(h, self.block()).items
    }

    /// Whether the handle may be used with `heap`.
    pub fn is_valid(&self, heap: &Heap<T, Alloc>) -> (valid: bool)
        ensures
            valid == self.valid(heap@),
    {
        match heap.get(self.inner.start.block) {
            Some(Block::Shared { prefix, items }) => {
                prefix.strong.load() > 0 && items.len() == self.inner.end && (
                core::mem::size_of::<T>() == 0 || self.inner.end <= prefix.capacity.load())
            },
            _ => false,
        }
    }

    /// Gives up the handle but not its count.
    pub(crate) fn into_inner(self) -> (inner: AllocSlice<T, Alloc>)
        ensures
            inner == self.raw(),
    {
        self.inner
    }

    /// How many values the slice has.
    pub fn len(&self) -> (len: usize)
        ensures
            len == self.raw().end,
    {
        self.inner.end
    }

    /// Whether the slice has no values.
    pub fn is_empty(&self) -> (empty: bool)
        ensures
            empty <==> self.raw().end == 0,
    {
        self.len() == 0
    }

    /// The values of the slice.
    pub fn as_slice<'a>(&self, heap: &'a Heap<T, Alloc>) -> (values: &'a [T])
        requires
            self.valid(heap@),
        ensures
            values@ == self.values(heap@),
            values@.len() == self.raw().end,
    {
        heap.items(self.inner.start.block).as_slice()
    }

    /// The values of the slice, to be changed, whether or not other handles see them.
    pub fn as_slice_mut_unchecked<'a>(&mut self, heap: &'a mut Heap<T, Alloc>) -> (values:
        &'a mut [T])
        requires
            old(heap).wf(),
            old(self).valid(old(heap)@),
        ensures
            *final(self) == *old(self),
            final(heap).wf(),
            values@ == old(self).values(old(heap)@),
            final(heap)@ == model::with_items(old(heap)@, old(self).block(), final(values)@),
            final(values)@.len() == values@.len() ==> Event::Change(old(self).block()).happens(
                old(heap)@,
                final(heap)@,
            ),
    {
        heap.items_mut(self.inner.start.block).as_mut_slice()
    }

    /// Returns the strong count.
    pub fn strong_count(this: &Self, heap: &Heap<T, Alloc>) -> (count: usize)
        requires
            this.valid(heap@),
        ensures
            count == model::at(heap@, this.block()).strong,
    {
        heap.prefix(this.inner.start.block).strong.load()
    }

    /// Returns the weak count. All strong handles share one, so that it is never 0.
    pub fn weak_count(this: &Self, heap: &Heap<T, Alloc>) -> (count: usize)
        requires
            heap.wf(),
            this.valid(heap@),
        ensures
            count == model::at(heap@, this.block()).weak,
            count > 0,
    {
        heap.prefix(this.inner.start.block).weak.load()
    }

    /// Whether the handle is the only one to its block, weak handles included.
    ///
    /// The two counts are read one after the other. Where other threads have weak handles, the
    /// answer holds if none is upgraded in between (see [`crate::interleaving`]).
    pub fn is_unique(this: &Self, heap: &Heap<T, Alloc>) -> (unique: bool)
        requires
            heap.wf(),
            this.valid(heap@),
        ensures
            unique == model::unique(heap@, this.block()),
            unique <==> heap@[this.block()]->Shared_0.strong == 1
                && heap@[this.block()]->Shared_0.weak == 1,
    {
        Self::strong_count(this, heap) == 1 && Self::weak_count(this, heap) == 1
    }

    /// The values of the slice, to be changed, if the handle is the only one to its block.
    pub fn as_slice_mut<'a>(&mut self, heap: &'a mut Heap<T, Alloc>) -> (result: Option<
        &'a mut [T],
    >)
        requires
            old(heap).wf(),
            old(self).valid(old(heap)@),
        ensures
            *final(self) == *old(self),
            final(heap).wf(),
            match result {
                Some(values) => {
                    &&& model::unique(old(heap)@, old(self).block())
                    &&& values@ == old(self).values(old(heap)@)
                    &&& final(heap)@ == model::with_items(
                        old(heap)@,
                        old(self).block(),
                        final(values)@,
                    )
                    &&& final(values)@.len() == values@.len() ==> Event::Change(
                        old(self).block(),
                    ).happens(old(heap)@, final(heap)@)
                },
                None => {
                    &&& !model::unique(old(heap)@, old(self).block())
                    &&& *final(heap) == *old(heap)
                },
            },
    {
        if Self::is_unique(&*self, &*heap) {
            Some(self.as_slice_mut_unchecked(heap))
        } else {
            None
        }
    }

    /// Another handle to the same slice.
    pub fn clone(&self, heap: &mut Heap<T, Alloc>) -> (slice: Self)
        requires
            old(heap).wf(),
            self.valid(old(heap)@),
        ensures
            slice == *self,
            final(heap)@ == model::with_strong(
                old(heap)@,
                self.block(),
                model::at(old(heap)@, self.block()).strong.wrapping_add(1),
            ),
            model::at(old(heap)@, self.block()).strong < usize::MAX ==> {
                &&& final(heap).wf()
                &&& slice.valid(final(heap)@)
                &&& Event::AddStrong(self.block()).happens(old(heap)@, final(heap)@)
            },
    {
        let _ = heap.prefix_mut(self.inner.start.block).strong.fetch_add(1);
        ArcSlice { inner: self.inner }
    }

    /// Makes the handle one to a slice of the one value, in place. Its count goes with it.
    pub fn from(value: Arc<T, Alloc>, heap: &mut Heap<T, Alloc>) -> (slice: Self)
        requires
            old(heap).wf(),
            value.valid(old(heap)@),
        ensures
            final(heap).wf(),
            slice.raw().start == value.raw(),
            slice.raw().end == 1,
            final(heap)@ == model::with_capacity(old(heap)@, value.block(), 1),
            Event::AsSlice(value.block()).happens(old(heap)@, final(heap)@),
            slice.valid(final(heap)@),
            slice.values(final(heap)@) == seq![value.value(old(heap)@)],
    {
        let start = Arc::into_raw(value);
        heap.prefix_mut(start.block).capacity.store(1);
        assert(model::at(old(heap)@, value.block()).items =~= seq![value.value(old(heap)@)]);
        ArcSlice { inner: AllocSlice { start, end: 1 } }
    }

    /// Whether the slice was made of a vector with memory, by sharing its block: `pre` became
    /// `post`.
    pub open spec fn shares(
        self,
        value: Vec<T, Alloc>,
        pre: Seq<Status<T, Alloc>>,
        post: Seq<Status<T, Alloc>>,
    ) -> bool {
        let grant = Grant {
            alloc: value.inner.alloc,
            origin: pre[value.block()]->origin->Some_0,
        };
        &&& self.raw().start == value.inner.start
        &&& self.raw().end == value.inner.end
        &&& post == pre.update(
            value.block(),
            model::fresh(value.inner.capacity, Some(grant), value.values(pre)),
        )
        &&& Event::ShareVec(value.block()).happens(pre, post)
    }

    /// Whether the slice was made of a vector without memory, by moving its values to a new block,
    /// for which `grant` was granted: `pre` became `post`.
    pub open spec fn moves(
        self,
        value: Vec<T, Alloc>,
        grant: Grant<Alloc>,
        pre: Seq<Status<T, Alloc>>,
        post: Seq<Status<T, Alloc>>,
    ) -> bool {
        let capacity = if layout::zero_sized::<T>() {
            heap::room_at::<T, Alloc>(grant.origin)
        } else {
            0
        };
        &&& self.block() == pre.len()
        &&& self.raw().end == value.inner.end
        &&& post == pre.update(
            value.block(),
            Status::Owned { origin: pre[value.block()]->origin, items: Seq::empty() },
        ).push(model::fresh(capacity, Some(grant), value.values(pre)))
        &&& Event::MoveVec(value.block()).happens(pre, post)
    }

    /// Makes a shared slice of the values of a vector.
    ///
    /// A vector with memory is shared in place. Without, the values take none, and go to a block
    /// for which the allocator is asked for the prefix alone; it must not refuse.
    pub fn from_vec(value: Vec<T, Alloc>, heap: &mut Heap<T, Alloc>) -> (slice: Self)
        requires
            old(heap).wf(),
            value.valid(old(heap)@),
            !value.has_memory() ==> allocator::never_refuses(
                value.inner.alloc,
                heap::block_layout::<T, Alloc>(0),
            ),
        ensures
            final(heap).wf(),
            slice.valid(final(heap)@),
            if value.has_memory() {
                slice.shares(value, old(heap)@, final(heap)@)
            } else {
                let grant = model::at(final(heap)@, slice.block()).grant->Some_0;
                &&& slice.moves(value, grant, old(heap)@, final(heap)@)
                &&& Alloc::allocates(
                    value.inner.alloc,
                    heap::block_layout::<T, Alloc>(0),
                    grant.alloc,
                    Some(grant.origin),
                )
            },
    {
        match Self::try_from_vec(value, heap) {
            Ok(slice) => slice,
            Err(_) => vstd::pervasive::unreached(),
        }
    }

    /// [`ArcSlice::from_vec`], where the allocator may refuse.
    ///
    /// # Errors
    /// Returns the vector if the allocator refuses, with the allocator as that left it.
    pub fn try_from_vec(value: Vec<T, Alloc>, heap: &mut Heap<T, Alloc>) -> (result: Result<
        Self,
        Vec<T, Alloc>,
    >)
        requires
            old(heap).wf(),
            value.valid(old(heap)@),
        ensures
            final(heap).wf(),
            match result {
                Ok(slice) => {
                    &&& slice.valid(final(heap)@)
                    &&& if value.has_memory() {
                        slice.shares(value, old(heap)@, final(heap)@)
                    } else {
                        let grant = model::at(final(heap)@, slice.block()).grant->Some_0;
                        &&& slice.moves(value, grant, old(heap)@, final(heap)@)
                        &&& Alloc::allocates(
                            value.inner.alloc,
                            heap::block_layout::<T, Alloc>(0),
                            grant.alloc,
                            Some(grant.origin),
                        )
                    }
                },
                Err(vec) => {
                    &&& !value.has_memory()
                    &&& Alloc::allocates(
                        value.inner.alloc,
                        heap::block_layout::<T, Alloc>(0),
                        vec.inner.alloc,
                        None,
                    )
                    &&& vec.inner == (VecInner { alloc: vec.inner.alloc, ..value.inner })
                    &&& *final(heap) == *old(heap)
                },
            },
    {
        if core::mem::size_of::<T>() != 0 && value.capacity() != 0 {
            Ok(Self::share_vec(value, heap))
        } else {
            let mut value = value;
            let reply = value.inner.alloc.allocate(heap::layout_of_block::<T, Alloc>(0));
            Self::try_from_vec_with(value, reply, heap)
        }
    }

    /// What [`ArcSlice::try_from_vec`] comes to for a vector without memory, once its allocator has
    /// replied.
    ///
    /// # Errors
    /// Returns the vector if the allocator refused.
    pub fn try_from_vec_with(
        value: Vec<T, Alloc>,
        reply: Option<usize>,
        heap: &mut Heap<T, Alloc>,
    ) -> (result: Result<Self, Vec<T, Alloc>>)
        requires
            old(heap).wf(),
            value.valid(old(heap)@),
            !value.has_memory(),
        ensures
            final(heap).wf(),
            match reply {
                Some(origin) => {
                    let grant = Grant { alloc: value.inner.alloc, origin };
                    &&& result matches Ok(slice)
                    &&& slice.valid(final(heap)@)
                    &&& slice.moves(value, grant, old(heap)@, final(heap)@)
                },
                None => {
                    &&& result == Err::<Self, Vec<T, Alloc>>(value)
                    &&& *final(heap) == *old(heap)
                },
            },
    {
        let origin: usize = match reply {
            Some(origin) => origin,
            None => return Err(value),
        };
        let (slice, _, alloc) = value.into_raw_components();
        let before = heap.exchange(
            slice.start.block,
            Block::Owned { origin: None, items: std::vec::Vec::new() },
        );
        let (emptied, items) = match before {
            Block::Owned { origin, items } => (origin, items),
            _ => vstd::pervasive::unreached(),
        };
        let _ = heap.exchange(
            slice.start.block,
            Block::Owned { origin: emptied, items: std::vec::Vec::new() },
        );
        assert(heap@ =~= old(heap)@.update(
            value.block(),
            Status::Owned { origin: emptied, items: Seq::empty() },
        ));
        let capacity: usize = if core::mem::size_of::<T>() != 0 {
            0
        } else {
            heap::room_in_block::<T, Alloc>(origin)
        };
        let block: usize = heap.share(capacity, Some(Grant { alloc, origin }), items);
        Ok(ArcSlice { inner: AllocSlice { start: AllocPtr::to(block), end: slice.end } })
    }

    /// Shares the block of a vector with memory, in place.
    fn share_vec(value: Vec<T, Alloc>, heap: &mut Heap<T, Alloc>) -> (slice: Self)
        requires
            old(heap).wf(),
            value.valid(old(heap)@),
            value.has_memory(),
        ensures
            final(heap).wf(),
            slice.valid(final(heap)@),
            slice.shares(value, old(heap)@, final(heap)@),
    {
        let (slice, capacity, alloc) = value.into_raw_components();
        let before = heap.exchange(
            slice.start.block,
            Block::Owned { origin: None, items: std::vec::Vec::new() },
        );
        match before {
            Block::Owned { origin: Some(origin), items } => {
                let prefix = AllocPrefix {
                    strong: Counter::new(1),
                    weak: Counter::new(1),
                    capacity: Counter::new(capacity),
                    grant: Some(Grant { alloc, origin }),
                };
                let _ = heap.exchange(slice.start.block, Block::Shared { prefix, items });
                assert(heap@ =~= old(heap)@.update(
                    value.block(),
                    model::fresh(capacity, Some(Grant { alloc, origin }), items@),
                ));
                ArcSlice { inner: slice }
            },
            _ => vstd::pervasive::unreached(),
        }
    }

    /// Drops the handle. With the last strong handle the values are destroyed, and the weak count
    /// that the strong handles shared is given up.
    pub fn drop(self, heap: &mut Heap<T, Alloc>)
        requires
            old(heap).wf(),
            self.valid(old(heap)@),
        ensures
            final(heap).wf(),
            model::strong_dropped(old(heap)@, final(heap)@, self.block()),
            Event::DropStrong(self.block()).happens(old(heap)@, final(heap)@),
    {
        if heap.prefix_mut(self.inner.start.block).strong.fetch_sub(1) != 1 {
            return ;
        }
        heap.destroy(self.inner.start.block);
        assert(heap@ =~= model::destroyed(old(heap)@, self.block()));
        WeakSlice { inner: self.inner }.drop(heap);
    }
}

/// A weak handle to a slice: it keeps the block of the values, but not the values.
pub struct WeakSlice<T, Alloc: IAlloc = DefaultAllocator> {
    inner: AllocSlice<T, Alloc>,
}

impl<T, Alloc: IAlloc> WeakSlice<T, Alloc> {
    /// Where the slice is.
    pub closed spec fn raw(self) -> AllocSlice<T, Alloc> {
        self.inner
    }

    /// The block that the handle points to.
    pub open spec fn block(self) -> int {
        self.raw().start.block as int
    }

    /// Whether the handle may be used with a heap whose blocks are `h`: the weak count of its block
    /// covers it, besides what the strong handles share, and the values of the block, if it has
    /// any, are those of the slice.
    pub open spec fn valid(self, h: Seq<Status<T, Alloc>>) -> bool {
        &&& model::weakly_held(h, self.block())
        &&& model::at(h, self.block()).strong > 0 ==> {
            &&& model::at(h, self.block()).items.len() == self.raw().end
            &&& !layout::zero_sized::<T>() ==> self.raw().end <= model::at(
                h,
                self.block(),
            ).capacity
        }
    }

    /// Attempts to make a strong handle. It succeeds while there is a strong handle.
    ///
    /// That, and that the heap stays as it should, is so while the strong count leaves the top bit
    /// of its word unused.
    pub fn upgrade(&self, heap: &mut Heap<T, Alloc>) -> (result: Option<ArcSlice<T, Alloc>>)
        requires
            old(heap).wf(),
            self.valid(old(heap)@),
        ensures
            final(heap)@ == model::with_strong(
                old(heap)@,
                self.block(),
                counter::upgraded(model::at(old(heap)@, self.block()).strong),
            ),
            match result {
                Some(slice) => {
                    &&& counter::upgradable(model::at(old(heap)@, self.block()).strong)
                    &&& slice.raw() == self.raw()
                },
                None => !counter::upgradable(model::at(old(heap)@, self.block()).strong),
            },
            counter::has_room(model::at(old(heap)@, self.block()).strong) ==> {
                &&& final(heap).wf()
                &&& self.valid(final(heap)@)
                &&& result is Some <==> model::at(old(heap)@, self.block()).strong > 0
                &&& result matches Some(slice) ==> slice.valid(final(heap)@) && model::at(
                    final(heap)@,
                    self.block(),
                ).strong == model::at(old(heap)@, self.block()).strong + 1
                &&& result is None ==> final(heap)@ == old(heap)@
                &&& Event::Upgrade(self.block()).happens(old(heap)@, final(heap)@)
            },
    {
        proof {
            counter::lemma_top_bit();
        }
        if heap.prefix_mut(self.inner.start.block).strong.try_upgrade() {
            Some(ArcSlice { inner: self.inner })
        } else {
            None
        }
    }

    /// Another weak handle to the same block.
    pub fn clone(&self, heap: &mut Heap<T, Alloc>) -> (weak: Self)
        requires
            old(heap).wf(),
            self.valid(old(heap)@),
        ensures
            weak == *self,
            final(heap)@ == model::with_weak(
                old(heap)@,
                self.block(),
                model::at(old(heap)@, self.block()).weak.wrapping_add(1),
            ),
            model::at(old(heap)@, self.block()).weak < usize::MAX ==> {
                &&& final(heap).wf()
                &&& weak.valid(final(heap)@)
                &&& Event::AddWeak(self.block()).happens(old(heap)@, final(heap)@)
            },
    {
        let _ = heap.prefix_mut(self.inner.start.block).weak.fetch_add(1);
        WeakSlice { inner: self.inner }
    }

    /// A weak handle to the slice of a strong one.
    pub fn from(value: &ArcSlice<T, Alloc>, heap: &mut Heap<T, Alloc>) -> (weak: Self)
        requires
            old(heap).wf(),
            value.valid(old(heap)@),
        ensures
            weak.raw() == value.raw(),
            final(heap)@ == model::with_weak(
                old(heap)@,
                value.block(),
                model::at(old(heap)@, value.block()).weak.wrapping_add(1),
            ),
            model::at(old(heap)@, value.block()).weak < usize::MAX ==> {
                &&& final(heap).wf()
                &&& weak.valid(final(heap)@)
                &&& value.valid(final(heap)@)
                &&& Event::AddWeak(value.block()).happens(old(heap)@, final(heap)@)
            },
    {
        let _ = heap.prefix_mut(value.inner.start.block).weak.fetch_add(1);
        WeakSlice { inner: value.inner }
    }

    /// Drops the handle. With the last handle the block is given back.
    pub fn drop(self, heap: &mut Heap<T, Alloc>)
        requires
            old(heap).wf(),
            model::weakly_held(old(heap)@, self.block()),
        ensures
            final(heap).wf(),
            model::weak_released(old(heap)@, final(heap)@, self.block()),
            Event::DropWeak(self.block()).happens(old(heap)@, final(heap)@),
    {
        heap.release_weak(self.inner.start.block);
    }
}

} // verus!
