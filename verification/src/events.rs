//! The operations, as what they do to a heap.
use crate::allocator::IAlloc;
use crate::counter;
use crate::model;
use crate::model::Status;
use vstd::prelude::*;

verus! {

/// What the operations do to a heap. The contract of each says which event it is.
///
/// The exchange of a handle (`Arc::replace_with`, and `Arc::make_mut` where there are others) is
/// two of them: a value is put into a new block, and then a strong handle to the other block is
/// dropped.
pub enum Event {
    /// A value is put into a new block (`Arc::try_make_in`, `Arc::make_in` and their kin).
    Make,
    /// A strong handle to the block is added (`Arc::clone`, `ArcSlice::clone`,
    /// `Arc::increment_strong_count`).
    AddStrong(int),
    /// A strong handle to the block is dropped (`Arc::drop`, `Arc::drop_with`, `ArcSlice::drop`).
    DropStrong(int),
    /// A weak handle to the block is added (`Weak::from`, `Weak::clone`, `WeakSlice::from`,
    /// `WeakSlice::clone`, `Arc::increment_weak_count`).
    AddWeak(int),
    /// A weak handle to the block is dropped (`Weak::drop`, `WeakSlice::drop`).
    DropWeak(int),
    /// A weak handle to the block is upgraded (`Weak::upgrade`, `WeakSlice::upgrade`).
    Upgrade(int),
    /// The values of the block are changed through a mutable reference (`Arc::get_mut`,
    /// `ArcSlice::as_slice_mut` and their kin).
    Change(int),
    /// The value of the block is taken out of it (`Arc::try_into_inner`).
    TakeValue(int),
    /// A strong handle to the value of the block becomes one to a slice (`ArcSlice::from`).
    AsSlice(int),
    /// A vector is made (`Vec::try_with_items_in`).
    MakeVec,
    /// The block of a vector becomes a shared slice, in place (`ArcSlice::from_vec` and its kin).
    ShareVec(int),
    /// The values of the vector's block go to a shared slice in a new block (`ArcSlice::from_vec`
    /// and its kin).
    MoveVec(int),
    /// The block of a shared slice becomes that of a vector (`Vec::try_from`).
    OwnSlice(int),
}

impl Event {
    /// The block that the event is about, if it is there already.
    pub open spec fn block(self) -> Option<int> {
        match self {
            Event::Make | Event::MakeVec => None,
            Event::AddStrong(b) => Some(b),
            Event::DropStrong(b) => Some(b),
            Event::AddWeak(b) => Some(b),
            Event::DropWeak(b) => Some(b),
            Event::Upgrade(b) => Some(b),
            Event::Change(b) => Some(b),
            Event::TakeValue(b) => Some(b),
            Event::AsSlice(b) => Some(b),
            Event::ShareVec(b) => Some(b),
            Event::MoveVec(b) => Some(b),
            Event::OwnSlice(b) => Some(b),
        }
    }

    /// Whether a heap `pre` may become `post` by this event.
    pub open spec fn happens<T, Alloc: IAlloc>(
        self,
        pre: Seq<Status<T, Alloc>>,
        post: Seq<Status<T, Alloc>>,
    ) -> bool {
        match self {
            Event::Make => {
                let s = model::at(post, pre.len() as int);
                &&& post == pre.push(model::fresh(0, s.grant, s.items))
                &&& s.items.len() == 1
            },
            Event::AddStrong(b) => {
                &&& model::strongly_held(pre, b)
                &&& model::at(pre, b).strong < usize::MAX
                &&& post == model::with_strong(pre, b, model::at(pre, b).strong.wrapping_add(1))
            },
            Event::DropStrong(b) => {
                &&& model::strongly_held(pre, b)
                &&& model::strong_released(pre, post, b)
            },
            Event::AddWeak(b) => {
                &&& model::is_shared(pre, b)
                &&& model::at(pre, b).weak < usize::MAX
                &&& post == model::with_weak(pre, b, model::at(pre, b).weak.wrapping_add(1))
            },
            Event::DropWeak(b) => {
                &&& model::weakly_held(pre, b)
                &&& model::weak_released(pre, post, b)
            },
            Event::Upgrade(b) => {
                &&& model::weakly_held(pre, b)
                &&& counter::has_room(model::at(pre, b).strong)
                &&& post == model::with_strong(
                    pre,
                    b,
                    counter::upgraded(model::at(pre, b).strong),
                )
            },
            Event::Change(b) => {
                &&& model::strongly_held(pre, b)
                &&& post == model::with_items(pre, b, model::at(post, b).items)
                &&& model::at(post, b).items.len() == model::at(pre, b).items.len()
            },
            Event::TakeValue(b) => {
                &&& model::strongly_held(pre, b)
                &&& model::unique(pre, b)
                &&& model::block_freed(pre, post, b)
            },
            Event::AsSlice(b) => {
                &&& model::strongly_held(pre, b)
                &&& model::at(pre, b).items.len() == 1
                &&& post == model::with_capacity(pre, b, 1)
            },
            Event::MakeVec => {
                &&& post == pre.push(post.last())
                &&& post.last() is Owned
            },
            Event::ShareVec(b) => {
                &&& 0 <= b < pre.len() && pre[b] is Owned
                &&& post == pre.update(
                    b,
                    model::fresh(
                        model::at(post, b).capacity,
                        model::at(post, b).grant,
                        pre[b]->Owned_items,
                    ),
                )
            },
            Event::MoveVec(b) => {
                &&& 0 <= b < pre.len() && pre[b] is Owned
                &&& post == pre.update(
                    b,
                    Status::Owned { origin: pre[b]->origin, items: Seq::empty() },
                ).push(
                    model::fresh(
                        model::at(post, pre.len() as int).capacity,
                        model::at(post, pre.len() as int).grant,
                        pre[b]->Owned_items,
                    ),
                )
            },
            Event::OwnSlice(b) => {
                &&& model::strongly_held(pre, b)
                &&& model::unique(pre, b)
                &&& post == pre.update(
                    b,
                    Status::Owned { origin: post[b]->origin, items: model::at(pre, b).items },
                )
            },
        }
    }
}

} // verus!
