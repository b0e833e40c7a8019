//! Weak handles to single values.
use crate::allocator::{DefaultAllocator, IAlloc};
use crate::arc::Arc;
use crate::counter;
use crate::events::Event;
use crate::heap::{AllocPtr, Heap};
use crate::model;
use crate::model::Status;
use vstd::prelude::*;

verus! {

/// A weak handle: it keeps the block of a value, but not the value.
pub struct Weak<T, Alloc: IAlloc = DefaultAllocator> {
    ptr: AllocPtr<T, Alloc>,
}

impl<T, Alloc: IAlloc> Weak<T, Alloc> {
    /// The pointer that the handle holds.
    pub closed spec fn raw(self) -> AllocPtr<T, Alloc> {
        self.ptr
    }

    /// The block that the handle points to.
    pub open spec fn block(self) -> int {
        self.raw().block as int
    }

    /// Whether the handle may be used with a heap whose blocks are `h`: the weak count of its block
    /// covers it, besides what the strong handles share, and the block has one value if any.
    pub open spec fn valid<U>(self, h: Seq<Status<U, Alloc>>) -> bool {
        &&& model::weakly_held(h, self.block())
        &&& model::at(h, self.block()).strong > 0 ==> model::at(h, self.block()).items.len() == 1
    }

    /// A weak handle to the value of a strong one.
    pub fn from<U>(value: &Arc<T, Alloc>, heap: &mut Heap<U, Alloc>) -> (weak: Self)
        requires
            old(heap).wf(),
            value.valid(old(heap)@),
        ensures
            weak.raw() == value.raw(),
            final(heap)@ == model::with_weak(
                old(heap)@,
                value.block(),
                model::at(old(heap)@, value.block()).weak.wrapping_add(1),
            ),
            model::at(old(heap)@, value.block()).weak < usize::MAX ==> {
                &&& final(heap).wf()
                &&& weak.valid(final(heap)@)
                &&& value.valid(final(heap)@)
                &&& Event::AddWeak(value.block()).happens(old(heap)@, final(heap)@)
            },
    {
        let ptr = value.pointer();
        let _ = heap.prefix_mut(ptr.block).weak.fetch_add(1);
        Weak { ptr }
    }

    /// Returns the pointer that the handle holds, leaking the handle: its weak count stays.
    pub fn into_raw(this: Self) -> (ptr: AllocPtr<T, Alloc>)
        ensures
            ptr == this.raw(),
    {
        this.ptr
    }

    /// Makes a handle out of a pointer, for a weak count that [`Weak::into_raw`] or
    /// [`Arc::increment_weak_count`] left without a handle.
    pub fn from_raw(this: AllocPtr<T, Alloc>) -> (weak: Self)
        ensures
            weak.raw() == this,
    {
        Weak { ptr: this }
    }

    /// Attempts to make a strong handle. It succeeds while there is a strong handle.
    ///
    /// That, and that the heap stays as it should, is so while the strong count leaves the top bit
    /// of its word unused.
    pub fn upgrade<U>(&self, heap: &mut Heap<U, Alloc>) -> (result: Option<Arc<T, Alloc>>)
        requires
            old(heap).wf(),
            self.valid(old(heap)@),
        ensures
            final(heap)@ == model::with_strong(
                old(heap)@,
                self.block(),
                counter::upgraded(model::at(old(heap)@, self.block()).strong),
            ),
            match result {
                Some(arc) => {
                    &&& counter::upgradable(model::at(old(heap)@, self.block()).strong)
                    &&& arc.raw() == self.raw()
                },
                None => !counter::upgradable(model::at(old(heap)@, self.block()).strong),
            },
            counter::has_room(model::at(old(heap)@, self.block()).strong) ==> {
                &&& final(heap).wf()
                &&& self.valid(final(heap)@)
                &&& result is Some <==> model::at(old(heap)@, self.block()).strong > 0
                &&& result matches Some(arc) ==> arc.valid(final(heap)@) && model::at(
                    final(heap)@,
                    self.block(),
                ).strong == model::at(old(heap)@, self.block()).strong + 1
                &&& result is None ==> final(heap)@ == old(heap)@
                &&& Event::Upgrade(self.block()).happens(old(heap)@, final(heap)@)
            },
    {
        proof {
            counter::lemma_top_bit();
        }
        if heap.prefix_mut(self.ptr.block).strong.try_upgrade() {
            Some(Arc::from_raw(self.ptr))
        } else {
            None
        }
    }

    /// Another weak handle to the same block.
    pub fn clone<U>(&self, heap: &mut Heap<U, Alloc>) -> (weak: Self)
        requires
            old(heap).wf(),
            self.valid(old(heap)@),
        ensures
            weak == *self,
            final(heap)@ == model::with_weak(
                old(heap)@,
                self.block(),
                model::at(old(heap)@, self.block()).weak.wrapping_add(1),
            ),
            model::at(old(heap)@, self.block()).weak < usize::MAX ==> {
                &&& final(heap).wf()
                &&& weak.valid(final(heap)@)
                &&& Event::AddWeak(self.block()).happens(old(heap)@, final(heap)@)
            },
    {
        let _ = heap.prefix_mut(self.ptr.block).weak.fetch_add(1);
        Weak { ptr: self.ptr }
    }

    /// Drops the handle. With the last handle the block is given back.
    pub fn drop<U>(self, heap: &mut Heap<U, Alloc>)
        requires
            old(heap).wf(),
            model::weakly_held(old(heap)@, self.block()),
        ensures
            final(heap).wf(),
            model::weak_released(old(heap)@, final(heap)@, self.block()),
            Event::DropWeak(self.block()).happens(old(heap)@, final(heap)@),
    {
        heap.release_weak(self.ptr.block);
    }
}

/// A handle is the pointer that it holds: turned into its pointer and back, it is the same.
pub proof fn law_raw_round_trip<T, Alloc: IAlloc>(before: Weak<T, Alloc>, after: Weak<T, Alloc>)
    requires
        after.raw() == before.raw(),
    ensures
        after == before,
{
}

} // verus!
