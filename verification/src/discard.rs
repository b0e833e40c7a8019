//! How values end.
use vstd::prelude::*;

verus! {

/// Whether `value` was dropped, as it is here, and for good.
///
/// It was handed to [`Result::ok`] as an error, which that function discards. Nothing but such a
/// call shows this of a value, and a call takes the value with it: it cannot be used any more, nor
/// be dropped a second time.
pub open spec fn discarded<V>(value: V) -> bool {
    call_ensures(Result::<(), V>::ok, (Err::<(), V>(value),), None::<()>)
}

/// Whether `values` were dropped, all together.
pub open spec fn all_discarded<T>(values: Seq<T>) -> bool {
    exists|vec: Vec<T>| vec@ == values && #[trigger] discarded(vec)
}

/// Drops `value`.
pub fn discard<V>(value: V)
    ensures
        discarded(value),
        call_ensures(Result::<(), V>::ok, (Err::<(), V>(value),), None::<()>),
{
    let end: Result<(), V> = Err(value);
    let _ = end.ok();
}

/// Values that are dropped together are those, in that number and order, that one vector held when
/// it was given to [`Result::ok`].
pub proof fn law_discarded_together<T>(values: Seq<T>)
    requires
        all_discarded(values),
    ensures
        exists|vec: Vec<T>|
            vec@.len() == values.len() && (forall|i: int|
                0 <= i < values.len() ==> #[trigger] vec@[i] == values[i])
                && #[trigger] call_ensures(
                Result::<(), Vec<T>>::ok,
                (Err::<(), Vec<T>>(vec),),
                None::<()>,
            ),
{
}

/// A value that is dropped was given to [`Result::ok`] as it was.
pub proof fn law_discarded_as_it_was<V>(value: V)
    requires
        discarded(value),
    ensures
        call_ensures(Result::<(), V>::ok, (Err::<(), V>(value),), None::<()>),
{
}

} // verus!
