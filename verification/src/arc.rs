//! Strong handles to single values.
use crate::allocator::{DefaultAllocator, IAlloc};
use crate::discard;
use crate::events::Event;
use crate::heap;
use crate::heap::{AllocPtr, Grant, Heap};
use crate::model;
use crate::model::Status;
use crate::weak::Weak;
use vstd::prelude::*;

verus! {

/// A strong handle to a value that lives in a heap.
///
/// Any number of handles may point to one value. It is destroyed with the last strong handle, and
/// its block is given back with the last handle, strong or weak.
///
/// The heap's type `U` is that of the values that it holds. It is `T`, unless the handle was
/// anonymized.
pub struct Arc<T, Alloc: IAlloc = DefaultAllocator> {
    ptr: AllocPtr<T, Alloc>,
}

impl<T, Alloc: IAlloc> Arc<T, Alloc> {
    /// The pointer that the handle holds.
    pub closed spec fn raw(self) -> AllocPtr<T, Alloc> {
        self.ptr
    }

    /// The block that the handle points to.
    pub open spec fn block(self) -> int {
        self.raw().block as int
    }

    /// Whether the handle may be used with a heap whose blocks are `h`: it points to a block with
    /// one value, and the block's strong count covers it.
    pub open spec fn valid<U>(self, h: Seq<Status<U, Alloc>>) -> bool {
        model::strongly_held(h, self.block()) && model::at(h, self.block()).items.len() == 1
    }

    /// The value that the handle points to.
    pub open spec fn value<U>(self, h: Seq<Status<U, Alloc>>) -> U {
        model::at(h, self.block()).items[0]
    }

    /// The memory that the block of the handle has.
    pub open spec fn grant<U>(self, h: Seq<Status<U, Alloc>>) -> Option<Grant<Alloc>> {
        model::at(h, self.block()).grant
    }

    /// Whether the handle was made by adding a new block to `pre`, which gave `post`.
    pub open spec fn made(self, pre: Seq<Status<T, Alloc>>, post: Seq<Status<T, Alloc>>) -> bool {
        &&& self.block() == pre.len()
        &&& post == pre.push(model::fresh(0, self.grant(post), seq![self.value(post)]))
        &&& Event::Make.happens(pre, post)
    }

    /// Attempts to make room for a value, and has `constructor` put it there.
    ///
    /// The slot that the constructor is handed is empty, and it must fill it.
    ///
    /// # Errors
    /// Returns the constructor and the allocator if the allocator refuses.
    pub fn try_make_in<F: FnOnce(&mut Option<T>)>(
        constructor: F,
        alloc: Alloc,
        heap: &mut Heap<T, Alloc>,
    ) -> (result: Result<Self, (F, Alloc)>)
        requires
            old(heap).wf(),
            forall|slot: &mut Option<T>| *slot == None::<T> ==> call_requires(constructor, (slot,)),
            forall|slot: &mut Option<T>|
                *slot == None::<T> && #[trigger] call_ensures(constructor, (slot,), ())
                    ==> *final(slot) is Some,
        ensures
            final(heap).wf(),
            match result {
                Ok(arc) => {
                    &&& arc.made(old(heap)@, final(heap)@)
                    &&& heap::granted::<T, Alloc>(alloc, arc.grant(final(heap)@))
                    &&& exists|slot: &mut Option<T>|
                        *slot == None::<T> && #[trigger] call_ensures(constructor, (slot,), ())
                            && *final(slot) == Some(arc.value(final(heap)@))
                },
                Err((f, a)) => {
                    &&& f == constructor
                    &&& heap::refused::<T, Alloc>(alloc, a)
                    &&& *final(heap) == *old(heap)
                },
            },
    {
        Self::try_make_with(constructor, Grant::request::<T>(alloc), heap)
    }

    /// What [`Arc::try_make_in`] comes to once the allocator has replied.
    pub fn try_make_with<F: FnOnce(&mut Option<T>)>(
        constructor: F,
        reply: Result<Option<Grant<Alloc>>, Alloc>,
        heap: &mut Heap<T, Alloc>,
    ) -> (result: Result<Self, (F, Alloc)>)
        requires
            old(heap).wf(),
            reply matches Ok(None) ==> crate::layout::zero_sized::<T>(),
            forall|slot: &mut Option<T>| *slot == None::<T> ==> call_requires(constructor, (slot,)),
            forall|slot: &mut Option<T>|
                *slot == None::<T> && #[trigger] call_ensures(constructor, (slot,), ())
                    ==> *final(slot) is Some,
        ensures
            final(heap).wf(),
            match reply {
                Ok(grant) => {
                    &&& result matches Ok(arc)
                    &&& arc.made(old(heap)@, final(heap)@)
                    &&& arc.grant(final(heap)@) == grant
                    &&& exists|slot: &mut Option<T>|
                        *slot == None::<T> && #[trigger] call_ensures(constructor, (slot,), ())
                            && *final(slot) == Some(arc.value(final(heap)@))
                },
                Err(alloc) => {
                    &&& result == Err::<Self, (F, Alloc)>((constructor, alloc))
                    &&& *final(heap) == *old(heap)
                },
            },
    {
        match reply {
            Ok(grant) => {
                let value = Self::construct(constructor);
                Ok(Self::place(value, grant, heap))
            },
            Err(alloc) => Err((constructor, alloc)),
        }
    }

    /// The value that `constructor` puts into an empty slot.
    fn construct<F: FnOnce(&mut Option<T>)>(constructor: F) -> (value: T)
        requires
            forall|slot: &mut Option<T>| *slot == None::<T> ==> call_requires(constructor, (slot,)),
            forall|slot: &mut Option<T>|
                *slot == None::<T> && #[trigger] call_ensures(constructor, (slot,), ())
                    ==> *final(slot) is Some,
        ensures
            exists|slot: &mut Option<T>|
                *slot == None::<T> && #[trigger] call_ensures(constructor, (slot,), ())
                    && *final(slot) == Some(value),
    {
        let mut slot: Option<T> = None;
        constructor(&mut slot);
        match slot {
            Some(value) => value,
            None => vstd::pervasive::unreached(),
        }
    }

    /// Adds a block for `value`, in memory that was granted.
    fn place(value: T, grant: Option<Grant<Alloc>>, heap: &mut Heap<T, Alloc>) -> (arc: Self)
        requires
            old(heap).wf(),
            crate::layout::zero_sized::<T>() || grant is Some,
        ensures
            final(heap).wf(),
            arc.made(old(heap)@, final(heap)@),
            arc.grant(final(heap)@) == grant,
            arc.value(final(heap)@) == value,
    {
        let mut items: Vec<T> = Vec::new();
        items.push(value);
        assert(items@ =~= seq![value]);
        let block: usize = heap.share(0, grant, items);
        Arc { ptr: AllocPtr::to(block) }
    }

    /// Attempts to make room for `value` and store it.
    ///
    /// # Errors
    /// Returns the value and the allocator if the allocator refuses.
    pub fn try_new_in(value: T, alloc: Alloc, heap: &mut Heap<T, Alloc>) -> (result: Result<
        Self,
        (T, Alloc),
    >)
        requires
            old(heap).wf(),
        ensures
            final(heap).wf(),
            match result {
                Ok(arc) => {
                    &&& arc.made(old(heap)@, final(heap)@)
                    &&& arc.value(final(heap)@) == value
                    &&& heap::granted::<T, Alloc>(alloc, arc.grant(final(heap)@))
                },
                Err((v, a)) => {
                    &&& v == value
                    &&& heap::refused::<T, Alloc>(alloc, a)
                    &&& *final(heap) == *old(heap)
                },
            },
    {
        match Grant::request::<T>(alloc) {
            Ok(grant) => Ok(Self::place(value, grant, heap)),
            Err(alloc) => Err((value, alloc)),
        }
    }

    /// Makes room for a value, and has `constructor` put it there.
    ///
    /// The slot that the constructor is handed is empty, and it must fill it. The allocator must
    /// not refuse.
    pub fn make_in<F: FnOnce(&mut Option<T>)>(
        constructor: F,
        alloc: Alloc,
        heap: &mut Heap<T, Alloc>,
    ) -> (arc: Self)
        requires
            old(heap).wf(),
            heap::provides::<T, Alloc>(alloc),
            forall|slot: &mut Option<T>| *slot == None::<T> ==> call_requires(constructor, (slot,)),
            forall|slot: &mut Option<T>|
                *slot == None::<T> && #[trigger] call_ensures(constructor, (slot,), ())
                    ==> *final(slot) is Some,
        ensures
            final(heap).wf(),
            arc.made(old(heap)@, final(heap)@),
            heap::granted::<T, Alloc>(alloc, arc.grant(final(heap)@)),
            exists|slot: &mut Option<T>|
                *slot == None::<T> && #[trigger] call_ensures(constructor, (slot,), ())
                    && *final(slot) == Some(arc.value(final(heap)@)),
    {
        match Self::try_make_with(constructor, Grant::request::<T>(alloc), heap) {
            Ok(arc) => arc,
            Err(_) => vstd::pervasive::unreached(),
        }
    }

    /// Makes room for `value` and stores it. The allocator must not refuse.
    pub fn new_in(value: T, alloc: Alloc, heap: &mut Heap<T, Alloc>) -> (arc: Self)
        requires
            old(heap).wf(),
            heap::provides::<T, Alloc>(alloc),
        ensures
            final(heap).wf(),
            arc.made(old(heap)@, final(heap)@),
            arc.value(final(heap)@) == value,
            heap::granted::<T, Alloc>(alloc, arc.grant(final(heap)@)),
    {
        let constructor = move |slot: &mut Option<T>|
            ensures
                *final(slot) == Some(value)
            {
                *slot = Some(value);
            };
        Self::make_in(constructor, alloc, heap)
    }

    /// [`Arc::make_in`], with the default allocator of its type.
    pub fn make<F: FnOnce(&mut Option<T>)>(constructor: F, heap: &mut Heap<T, Alloc>) -> (arc:
        Self) where Alloc: Default
        requires
            old(heap).wf(),
            forall|alloc: Alloc| #[trigger]
                call_ensures(Alloc::default, (), alloc) ==> heap::provides::<T, Alloc>(alloc),
            forall|slot: &mut Option<T>| *slot == None::<T> ==> call_requires(constructor, (slot,)),
            forall|slot: &mut Option<T>|
                *slot == None::<T> && #[trigger] call_ensures(constructor, (slot,), ())
                    ==> *final(slot) is Some,
        ensures
            final(heap).wf(),
            arc.made(old(heap)@, final(heap)@),
            exists|alloc: Alloc| #[trigger]
                call_ensures(Alloc::default, (), alloc) && heap::granted::<T, Alloc>(
                    alloc,
                    arc.grant(final(heap)@),
                ),
            exists|slot: &mut Option<T>|
                *slot == None::<T> && #[trigger] call_ensures(constructor, (slot,), ())
                    && *final(slot) == Some(arc.value(final(heap)@)),
    {
        Self::make_in(constructor, Alloc::default(), heap)
    }

    /// [`Arc::new_in`], with the default allocator of its type.
    pub fn new(value: T, heap: &mut Heap<T, Alloc>) -> (arc: Self) where Alloc: Default
        requires
            old(heap).wf(),
            forall|alloc: Alloc| #[trigger]
                call_ensures(Alloc::default, (), alloc) ==> heap::provides::<T, Alloc>(alloc),
        ensures
            final(heap).wf(),
            arc.made(old(heap)@, final(heap)@),
            arc.value(final(heap)@) == value,
            exists|alloc: Alloc| #[trigger]
                call_ensures(Alloc::default, (), alloc) && heap::granted::<T, Alloc>(
                    alloc,
                    arc.grant(final(heap)@),
                ),
    {
        Self::new_in(value, Alloc::default(), heap)
    }

    /// Returns the pointer that the handle holds, leaking the handle: its strong count stays.
    pub fn into_raw(this: Self) -> (ptr: AllocPtr<T, Alloc>)
        ensures
            ptr == this.raw(),
    {
        this.ptr
    }

    /// The pointer that the handle holds.
    pub(crate) fn pointer(&self) -> (ptr: AllocPtr<T, Alloc>)
        ensures
            ptr == self.raw(),
    {
        self.ptr
    }

    /// Makes a handle out of a pointer, for a strong count that [`Arc::into_raw`] or
    /// [`Arc::increment_strong_count`] left without a handle.
    pub fn from_raw(this: AllocPtr<T, Alloc>) -> (arc: Self)
        ensures
            arc.raw() == this,
    {
        Arc { ptr: this }
    }

    /// Provides a mutable reference to the value if the strong and weak counts are both 1.
    pub fn get_mut<'a>(this: &mut Self, heap: &'a mut Heap<T, Alloc>) -> (result: Option<
        &'a mut T,
    >)
        requires
            old(heap).wf(),
            old(this).valid(old(heap)@),
        ensures
            *final(this) == *old(this),
            final(heap).wf(),
            match result {
                Some(value) => {
                    &&& model::unique(old(heap)@, old(this).block())
                    &&& *value == old(this).value(old(heap)@)
                    &&& final(heap)@ == model::with_items(
                        old(heap)@,
                        old(this).block(),
                        seq![*final(value)],
                    )
                    &&& Event::Change(old(this).block()).happens(old(heap)@, final(heap)@)
                },
                None => {
                    &&& !model::unique(old(heap)@, old(this).block())
                    &&& *final(heap) == *old(heap)
                },
            },
    {
        if Self::is_unique(&*this, &*heap) {
            Some(Self::get_mut_unchecked(this, heap))
        } else {
            None
        }
    }

    /// Provides a mutable reference to the value, whether or not other handles see it.
    pub fn get_mut_unchecked<'a>(this: &mut Self, heap: &'a mut Heap<T, Alloc>) -> (value:
        &'a mut T)
        requires
            old(heap).wf(),
            old(this).valid(old(heap)@),
        ensures
            *final(this) == *old(this),
            final(heap).wf(),
            *value == old(this).value(old(heap)@),
            final(heap)@ == model::with_items(
                old(heap)@,
                old(this).block(),
                seq![*final(value)],
            ),
            Event::Change(old(this).block()).happens(old(heap)@, final(heap)@),
    {
        let items = heap.items_mut(this.ptr.block);
        let value = &mut items[0];
        proof {
            assert(model::at(old(heap)@, old(this).block()).items.update(0, *final(value)) =~= seq![
                *final(value),
            ]);
        }
        value
    }

    /// Returns the strong count.
    pub fn strong_count<U>(this: &Self, heap: &Heap<U, Alloc>) -> (count: usize)
        requires
            this.valid(heap@),
        ensures
            count == model::at(heap@, this.block()).strong,
    {
        heap.prefix(this.ptr.block).strong.load()
    }

    /// Adds a strong count to the block that `this` points to, for a handle yet to be made.
    /// Returns the count from before.
    pub fn increment_strong_count<U>(
        this: AllocPtr<T, Alloc>,
        heap: &mut Heap<U, Alloc>,
    ) -> (before: usize)
        requires
            old(heap).wf(),
            model::strongly_held(old(heap)@, this.block as int),
        ensures
            before == model::at(old(heap)@, this.block as int).strong,
            final(heap)@ == model::with_strong(
                old(heap)@,
                this.block as int,
                before.wrapping_add(1),
            ),
            before < usize::MAX ==> {
                &&& final(heap).wf()
                &&& Event::AddStrong(this.block as int).happens(old(heap)@, final(heap)@)
            },
    {
        heap.prefix_mut(this.block).strong.fetch_add(1)
    }

    /// Returns the weak count. All strong handles share one, so that it is never 0.
    pub fn weak_count<U>(this: &Self, heap: &Heap<U, Alloc>) -> (count: usize)
        requires
            heap.wf(),
            this.valid(heap@),
        ensures
            count == model::at(heap@, this.block()).weak,
            count > 0,
    {
        heap.prefix(this.ptr.block).weak.load()
    }

    /// Adds a weak count to the block of the handle, for a weak handle yet to be made. Returns the
    /// count from before.
    pub fn increment_weak_count<U>(this: &Self, heap: &mut Heap<U, Alloc>) -> (before: usize)
        requires
            old(heap).wf(),
            this.valid(old(heap)@),
        ensures
            before == model::at(old(heap)@, this.block()).weak,
            final(heap)@ == model::with_weak(old(heap)@, this.block(), before.wrapping_add(1)),
            before < usize::MAX ==> {
                &&& final(heap).wf()
                &&& this.valid(final(heap)@)
                &&& Event::AddWeak(this.block()).happens(old(heap)@, final(heap)@)
            },
    {
        heap.prefix_mut(this.ptr.block).weak.fetch_add(1)
    }

    /// Whether the handle is the only one to its block, weak handles included.
    ///
    /// The two counts are read one after the other. Where other threads have weak handles, the
    /// answer holds if none is upgraded in between (see [`crate::interleaving`]).
    pub fn is_unique<U>(this: &Self, heap: &Heap<U, Alloc>) -> (unique: bool)
        requires
            heap.wf(),
            this.valid(heap@),
        ensures
            unique == model::unique(heap@, this.block()),
            unique <==> heap@[this.block()]->Shared_0.strong == 1
                && heap@[this.block()]->Shared_0.weak == 1,
    {
        Self::strong_count(this, heap) == 1 && Self::weak_count(this, heap) == 1
    }

    /// Takes the value out of its block and gives the block back.
    ///
    /// # Errors
    /// Returns `this` if it is not the only handle to its block.
    pub fn try_into_inner(this: Self, heap: &mut Heap<T, Alloc>) -> (result: Result<T, Self>)
        requires
            old(heap).wf(),
            this.valid(old(heap)@),
        ensures
            final(heap).wf(),
            match result {
                Ok(value) => {
                    &&& model::unique(old(heap)@, this.block())
                    &&& value == this.value(old(heap)@)
                    &&& model::block_freed(old(heap)@, final(heap)@, this.block())
                    &&& Event::TakeValue(this.block()).happens(old(heap)@, final(heap)@)
                },
                Err(arc) => {
                    &&& !model::unique(old(heap)@, this.block())
                    &&& arc == this
                    &&& *final(heap) == *old(heap)
                },
            },
    {
        if !Self::is_unique(&this, &*heap) {
            Err(this)
        } else {
            let block: usize = Arc::into_raw(this).block;
            match heap.items_mut(block).pop() {
                Some(value) => {
                    heap.release_weak(block);
                    assert(final(heap)@ =~= old(heap)@.update(
                        this.block(),
                        final(heap)@[this.block()],
                    ));
                    Ok(value)
                },
                None => vstd::pervasive::unreached(),
            }
        }
    }

    /// Drops the handle. With the last strong handle the value is destroyed, and the weak count
    /// that the strong handles shared is given up.
    pub fn drop<U>(self, heap: &mut Heap<U, Alloc>)
        requires
            old(heap).wf(),
            self.valid(old(heap)@),
        ensures
            final(heap).wf(),
            model::strong_dropped(old(heap)@, final(heap)@, self.block()),
            Event::DropStrong(self.block()).happens(old(heap)@, final(heap)@),
    {
        if heap.prefix_mut(self.ptr.block).strong.fetch_sub(1) != 1 {
            return ;
        }
        heap.destroy(self.ptr.block);
        assert(heap@ =~= model::destroyed(old(heap)@, self.block()));
        Weak::from_raw(self.ptr).drop(heap);
    }

    /// Another handle to the same value.
    pub fn clone<U>(&self, heap: &mut Heap<U, Alloc>) -> (arc: Self)
        requires
            old(heap).wf(),
            self.valid(old(heap)@),
        ensures
            arc == *self,
            final(heap)@ == model::with_strong(
                old(heap)@,
                self.block(),
                model::at(old(heap)@, self.block()).strong.wrapping_add(1),
            ),
            model::at(old(heap)@, self.block()).strong < usize::MAX ==> {
                &&& final(heap).wf()
                &&& arc.valid(final(heap)@)
                &&& Event::AddStrong(self.block()).happens(old(heap)@, final(heap)@)
            },
    {
        let _ = heap.prefix_mut(self.ptr.block).strong.fetch_add(1);
        Arc { ptr: self.ptr }
    }

    /// The value that the handle points to.
    pub fn deref<'a>(&self, heap: &'a Heap<T, Alloc>) -> (value: &'a T)
        requires
            self.valid(heap@),
        ensures
            *value == self.value(heap@),
    {
        &heap.items(self.ptr.block)[0]
    }

    /// Returns a mutable reference to the value of the handle. Where [`Arc::get_mut`] would fail,
    /// the value is first cloned into a block of its own, by a clone of the allocator, and the
    /// handle exchanged for one to that block. The allocator must not refuse.
    pub fn make_mut<'a>(&mut self, heap: &'a mut Heap<T, Alloc>) -> (value: &'a mut T) where
        T: Clone,
        Alloc: Clone,

        requires
            old(heap).wf(),
            old(self).valid(old(heap)@),
            !model::unique(old(heap)@, old(self).block()) ==> (old(self).grant(
                old(heap)@,
            ) matches Some(g) ==> forall|alloc: Alloc| #[trigger]
                vstd::pervasive::strictly_cloned(g.alloc, alloc) ==> heap::provides::<T, Alloc>(
                    alloc,
                )),
        ensures
            final(heap).wf(),
            final(self).valid(final(heap)@),
            made_mut(
                *old(self),
                *final(self),
                old(heap)@,
                final(heap)@,
                *value,
                *final(value),
            ),
            old(heap)@[old(self).block()]->Shared_0.strong > 1 ==> {
                &&& final(self).block() != old(self).block()
                &&& final(heap)@[old(self).block()] is Shared
                &&& final(heap)@[old(self).block()]->Shared_0.items == old(heap)@[old(
                    self,
                ).block()]->Shared_0.items
            },
            final(heap)@[final(self).block()]->Shared_0.items == seq![*final(value)],
    {
        match self.try_make_mut(heap) {
            Ok(value) => value,
            Err(_) => vstd::pervasive::unreached(),
        }
    }

    /// [`Arc::make_mut`], where the allocator may refuse.
    ///
    /// # Errors
    /// Returns the clone of the value and the clone of the allocator if the latter refuses. The
    /// handle is then as it was.
    pub fn try_make_mut<'a>(&mut self, heap: &'a mut Heap<T, Alloc>) -> (result: Result<
        &'a mut T,
        (T, Alloc),
    >) where T: Clone, Alloc: Clone
        requires
            old(heap).wf(),
            old(self).valid(old(heap)@),
        ensures
            final(heap).wf(),
            final(self).valid(final(heap)@),
            match result {
                Ok(value) => {
                    &&& made_mut(
                        *old(self),
                        *final(self),
                        old(heap)@,
                        final(heap)@,
                        *value,
                        *final(value),
                    )
                    &&& old(heap)@[old(self).block()]->Shared_0.strong > 1 ==> {
                        &&& final(self).block() != old(self).block()
                        &&& final(heap)@[old(self).block()] is Shared
                        &&& final(heap)@[old(self).block()]->Shared_0.items == old(heap)@[old(
                            self,
                        ).block()]->Shared_0.items
                    }
                    &&& final(heap)@[final(self).block()]->Shared_0.items == seq![*final(value)]
                },
                Err((v, a)) => {
                    &&& !model::unique(old(heap)@, old(self).block())
                    &&& vstd::pervasive::strictly_cloned(old(self).value(old(heap)@), v)
                    &&& clone_refused::<T, Alloc>(old(self).grant(old(heap)@), a)
                    &&& *final(self) == *old(self)
                    &&& *final(heap) == *old(heap)
                },
            },
    {
        if !Self::is_unique(&*self, &*heap) {
            let value = self.deref(&*heap).clone();
            let reply = match &heap.prefix(self.ptr.block).grant {
                Some(grant) => {
                    let alloc = grant.alloc.clone();
                    assert(vstd::pervasive::strictly_cloned(grant.alloc, alloc));
                    Grant::request::<T>(alloc)
                },
                None => Ok(None),
            };
            match self.replace_with(value, reply, heap) {
                Ok(()) => {},
                Err(refusal) => return Err(refusal),
            }
            let ghost placed = old(heap)@.push(model::fresh(0, reply->Ok_0, seq![value]));
            let ghost released = heap@;
            let value = Self::get_mut_unchecked(self, heap);
            proof {
                let b = old(self).block();
                let c = old(heap)@.len() as int;
                let items = seq![*final(value)];
                model::lemma_release_beside(placed, released, b, c, items);
                assert(model::with_items(placed, c, items) =~= old(heap)@.push(
                    model::fresh(0, reply->Ok_0, items),
                ));
            }
            Ok(value)
        } else {
            Ok(Self::get_mut_unchecked(self, heap))
        }
    }

    /// What [`Arc::try_make_mut`] comes to for a handle that is not the only one, once the value
    /// was cloned and the allocator has replied: the handle is exchanged for one to the clone.
    ///
    /// # Errors
    /// Returns the clone and the allocator if the latter refused.
    pub fn replace_with(
        &mut self,
        value: T,
        reply: Result<Option<Grant<Alloc>>, Alloc>,
        heap: &mut Heap<T, Alloc>,
    ) -> (result: Result<(), (T, Alloc)>)
        requires
            old(heap).wf(),
            old(self).valid(old(heap)@),
            reply matches Ok(None) ==> crate::layout::zero_sized::<T>(),
        ensures
            final(heap).wf(),
            final(self).valid(final(heap)@),
            match reply {
                Ok(grant) => {
                    let placed = old(heap)@.push(model::fresh(0, grant, seq![value]));
                    &&& result == Ok::<(), (T, Alloc)>(())
                    &&& final(self).made(old(heap)@, placed)
                    &&& model::strong_dropped(placed, final(heap)@, old(self).block())
                    &&& Event::DropStrong(old(self).block()).happens(placed, final(heap)@)
                },
                Err(alloc) => {
                    &&& result == Err::<(), (T, Alloc)>((value, alloc))
                    &&& *final(self) == *old(self)
                    &&& *final(heap) == *old(heap)
                },
            },
    {
        match reply {
            Ok(grant) => {
                let arc = Self::place(value, grant, heap);
                let shared = Arc { ptr: self.ptr };
                *self = arc;
                shared.drop(heap);
                Ok(())
            },
            Err(alloc) => Err((value, alloc)),
        }
    }

    /// The value that the handle points to, by the type that the heap knows it by.
    pub fn as_ref<'a, U>(&self, heap: &'a Heap<U, Alloc>) -> (value: &'a U)
        requires
            self.valid(heap@),
        ensures
            *value == self.value(heap@),
    {
        &heap.items(self.ptr.block)[0]
    }

    /// [`Arc::get_mut`], by the type that the heap knows the value by.
    pub fn try_as_mut<'a, U>(&mut self, heap: &'a mut Heap<U, Alloc>) -> (result: Option<
        &'a mut U,
    >)
        requires
            old(heap).wf(),
            old(self).valid(old(heap)@),
        ensures
            *final(self) == *old(self),
            final(heap).wf(),
            match result {
                Some(value) => {
                    &&& model::unique(old(heap)@, old(self).block())
                    &&& *value == old(self).value(old(heap)@)
                    &&& final(heap)@ == model::with_items(
                        old(heap)@,
                        old(self).block(),
                        seq![*final(value)],
                    )
                    &&& Event::Change(old(self).block()).happens(old(heap)@, final(heap)@)
                },
                None => {
                    &&& !model::unique(old(heap)@, old(self).block())
                    &&& *final(heap) == *old(heap)
                },
            },
    {
        let mut typed: Arc<U, Alloc> = Arc { ptr: self.ptr.cast() };
        Arc::get_mut(&mut typed, heap)
    }

    /// Drops the handle. With the last strong handle `destructor` is called on the value, in place
    /// of what its type has for that: what it leaves is forgotten. Then the weak count that the
    /// strong handles shared is given up.
    pub fn drop_with<U, F: FnOnce(&mut U)>(self, destructor: F, heap: &mut Heap<U, Alloc>)
        requires
            old(heap).wf(),
            self.valid(old(heap)@),
            model::at(old(heap)@, self.block()).strong == 1 ==> forall|value: &mut U|
                *value == self.value(old(heap)@) ==> call_requires(destructor, (value,)),
        ensures
            final(heap).wf(),
            model::strong_released(old(heap)@, final(heap)@, self.block()),
            Event::DropStrong(self.block()).happens(old(heap)@, final(heap)@),
            model::at(old(heap)@, self.block()).strong == 1 ==> exists|
                value: &mut U,
                left: core::mem::ManuallyDrop<U>,
            |
                *value == self.value(old(heap)@) && #[trigger] call_ensures(
                    destructor,
                    (value,),
                    (),
                ) && left@ == *final(value) && #[trigger] discard::discarded(left),
    {
        if heap.prefix_mut(self.ptr.block).strong.fetch_sub(1) != 1 {
            return ;
        }
        match heap.items_mut(self.ptr.block).pop() {
            Some(mut value) => {
                destructor(&mut value);
                discard::discard(core::mem::ManuallyDrop::new(value));
            },
            None => vstd::pervasive::unreached(),
        }
        assert(model::at(heap@, self.block()).items =~= Seq::empty());
        assert(heap@ =~= model::destroyed(old(heap)@, self.block()));
        Weak::from_raw(self.ptr).drop(heap);
    }

    /// The same handle, without the type of its value. It still points to the same block.
    pub fn anonimize(self) -> (arc: Arc<(), Alloc>)
        ensures
            arc.block() == self.block(),
    {
        Arc { ptr: self.ptr.cast() }
    }
}

/// A handle is the pointer that it holds: turned into its pointer and back, it is the same.
pub proof fn law_raw_round_trip<T, Alloc: IAlloc>(before: Arc<T, Alloc>, after: Arc<T, Alloc>)
    requires
        after.raw() == before.raw(),
    ensures
        after == before,
{
}

/// Whether a clone of the allocator of `grant` may have granted `fresh` for one more `T`.
pub open spec fn regranted<T, Alloc: IAlloc + Clone>(
    grant: Option<Grant<Alloc>>,
    fresh: Option<Grant<Alloc>>,
) -> bool {
    match grant {
        Some(g) => exists|alloc: Alloc| #[trigger]
            vstd::pervasive::strictly_cloned(g.alloc, alloc) && heap::granted::<T, Alloc>(
                alloc,
                fresh,
            ),
        None => fresh is None,
    }
}

/// Whether a clone of the allocator of `grant` may have refused one more `T`, leaving `after`.
pub open spec fn clone_refused<T, Alloc: IAlloc + Clone>(
    grant: Option<Grant<Alloc>>,
    after: Alloc,
) -> bool {
    grant matches Some(g) && exists|alloc: Alloc| #[trigger]
        vstd::pervasive::strictly_cloned(g.alloc, alloc) && heap::refused::<T, Alloc>(alloc, after)
}

/// Whether [`Arc::make_mut`] may turn the handle `before` into `after`, and the heap `pre` into
/// `post`, where the reference that it returns is to `value`, which becomes `changed` through it.
///
/// The only handle stays, and its value is changed. Any other is exchanged for one to a clone of
/// the value.
pub open spec fn made_mut<T: Clone, Alloc: IAlloc + Clone>(
    before: Arc<T, Alloc>,
    after: Arc<T, Alloc>,
    pre: Seq<Status<T, Alloc>>,
    post: Seq<Status<T, Alloc>>,
    value: T,
    changed: T,
) -> bool {
    if model::unique(pre, before.block()) {
        &&& after == before
        &&& value == before.value(pre)
        &&& post == model::with_items(pre, before.block(), seq![changed])
        &&& Event::Change(before.block()).happens(pre, post)
    } else {
        let grant = after.grant(post);
        let placed = pre.push(model::fresh(0, grant, seq![changed]));
        &&& after.made(pre, placed)
        &&& vstd::pervasive::strictly_cloned(before.value(pre), value)
        &&& regranted::<T, Alloc>(before.grant(pre), grant)
        &&& model::strong_dropped(placed, post, before.block())
        &&& Event::DropStrong(before.block()).happens(placed, post)
    }
}

} // verus!
