//! Walking over a shared slice, and writing it out.
use crate::allocator::IAlloc;
use crate::heap::Heap;
use crate::slice::ArcSlice;
use vstd::prelude::*;

verus! {

/// A piece of what a slice is written as.
pub enum Piece<'a, T> {
    /// The colon between two values.
    Separator,
    /// A value.
    Value(&'a T),
}

/// The pieces that `values` are written as: the values in order, and a separator between any two.
pub open spec fn pieces_of<'a, T>(values: Seq<T>) -> Seq<Piece<'a, T>> {
    Seq::new(
        if values.len() == 0 {
            0
        } else {
            (2 * values.len() - 1) as nat
        },
        |i: int|
            if i % 2 == 0 {
                Piece::Value(&values[i / 2])
            } else {
                Piece::Separator
            },
    )
}

/// The values that stand among `pieces`, in order.
pub open spec fn values_in<'a, T>(pieces: Seq<Piece<'a, T>>) -> Seq<T>
    decreases pieces.len(),
{
    if pieces.len() == 0 {
        Seq::empty()
    } else {
        match pieces.last() {
            Piece::Separator => values_in(pieces.drop_last()),
            Piece::Value(value) => values_in(pieces.drop_last()).push(*value),
        }
    }
}

/// Every second piece is a value: piece `2 * k` is the value at place `k`, for every place. Those
/// between them are separators, and there are no others.
pub proof fn law_pieces_are_the_values<T>(values: Seq<T>)
    ensures
        ({
            let pieces = pieces_of(values);
            &&& values.len() == 0 ==> pieces.len() == 0
            &&& values.len() > 0 ==> pieces.len() == 2 * values.len() - 1
            &&& forall|k: int|
                0 <= k < values.len() ==> pieces[2 * k] == Piece::Value(&#[trigger] values[k])
            &&& forall|k: int| #![trigger values[k]]
                0 <= k && k + 1 < values.len() ==> pieces[2 * k + 1] is Separator
            &&& forall|i: int|
                0 <= i < pieces.len() && i % 2 == 1 ==> #[trigger] pieces[i] is Separator
        }),
{
}

/// Without the separators, what a slice is written as is its values: all of them, in order.
pub proof fn law_pieces_hold_the_values<T>(values: Seq<T>)
    ensures
        values_in(pieces_of::<T>(values)) == values,
    decreases values.len(),
{
    let pieces = pieces_of(values);
    if values.len() > 0 {
        let fewer = values.drop_last();
        law_pieces_hold_the_values(fewer);
        let rest = pieces.drop_last();
        if fewer.len() > 0 {
            assert(rest.last() is Separator);
            assert(rest.drop_last() =~= pieces_of::<T>(fewer));
            assert(values_in(rest) == values_in(rest.drop_last()));
        } else {
            assert(rest =~= pieces_of::<T>(fewer));
        }
        assert(pieces.last() == Piece::Value(&values.last()));
        assert(values_in(pieces) == values_in(rest).push(values.last()));
        assert(fewer.push(values.last()) =~= values);
    } else {
        assert(values =~= Seq::empty());
    }
}

impl<T, Alloc: IAlloc> ArcSlice<T, Alloc> {
    /// The pieces that the slice is written as in hexadecimal, lower or upper case.
    pub fn hex_pieces<'a>(&self, heap: &'a Heap<T, Alloc>) -> (pieces: Vec<Piece<'a, T>>)
        requires
            self.valid(heap@),
        ensures
            pieces@ == pieces_of(self.values(heap@)),
            pieces@.len() + 1 == 2 * self.raw().end || pieces@.len() == self.raw().end == 0,
            forall|k: int|
                0 <= k < self.raw().end ==> pieces@[2 * k] == Piece::Value(
                    &#[trigger] self.values(heap@)[k],
                ),
            forall|i: int|
                0 <= i < pieces@.len() && i % 2 == 1 ==> #[trigger] pieces@[i] is Separator,
    {
        let values = self.as_slice(heap);
        let mut pieces: Vec<Piece<'a, T>> = Vec::new();
        let mut first: bool = true;
        let mut i: usize = 0;
        while i < values.len()
            invariant
                i <= values@.len(),
                first <==> i == 0,
                pieces@ =~= pieces_of(values@.take(i as int)),
            decreases values@.len() - i,
        {
            if !first {
                pieces.push(Piece::Separator);
            }
            first = false;
            pieces.push(Piece::Value(&values[i]));
            i += 1;
        }
        assert(values@.take(i as int) =~= values@);
        proof {
            law_pieces_are_the_values(values@);
        }
        pieces
    }

    /// An iterator over the values of the slice, in order.
    pub fn into_iter<'a>(&self, heap: &'a Heap<T, Alloc>) -> (iter: core::slice::Iter<'a, T>)
        requires
            self.valid(heap@),
        ensures
            vstd::std_specs::iter::IteratorSpec::remaining(&iter) == self.values(heap@).as_ref(),
    {
        self.as_slice(heap).iter()
    }
}

} // verus!
