# stabby_sync

Shared ownership of values by counted handles, written and proved in Verus.

- `Arc` and `Weak` are strong and weak handles to single values, `ArcSlice` and `WeakSlice` to
  slices. The values live in the blocks of a `Heap`. A value is destroyed with its last strong
  handle, and its block is given back to its allocator with the last handle of all.
- `src/` is the library. `model.rs` says what a heap is and how operations change it; the contracts
  of the other modules speak of that, and say which of the events in `events.rs` an operation is.
  `laws.rs` proves what holds across those events.
- `interleaving.rs` proves what the counts guard while many threads clone, drop and upgrade handles.
  It does so for one upgrade at a time, and while the counts have room for the handles. It does not
  cover the test for the only handle (`get_mut`, `make_mut`, `try_into_inner`, `as_slice_mut`,
  `Vec::try_from`): that test reads two counts one after the other, and is right only if no handle
  is upgraded in between.
- `app/` gives shared slices the traits of the standard library.
- `tests/` runs the library on concrete values.

Handles are plain pointers into a heap. The compiler does not drop them: each has a `drop` that
takes the heap.
