use stabby_sync::heap::AllocPrefix;
use stabby_sync::{Arc, DefaultAllocator, Grant, Heap, IAlloc, Layout, Weak};
use std::cell::{Cell, RefCell};
use std::rc::Rc;

/// What a recording allocator was asked.
#[derive(Debug, PartialEq, Clone, Copy)]
enum Call {
    Asked { size: usize, align: usize },
    Freed { origin: usize },
}

/// An allocator that grants addresses from a list, refuses when it is used up, and keeps books.
#[derive(Clone)]
struct Recorder {
    book: Rc<RefCell<Vec<Call>>>,
    grants: Rc<RefCell<Vec<usize>>>,
}

impl Recorder {
    fn new(grants: &[usize]) -> Recorder {
        let mut grants = grants.to_vec();
        grants.reverse();
        Recorder { book: Rc::new(RefCell::new(Vec::new())), grants: Rc::new(RefCell::new(grants)) }
    }

    fn calls(&self) -> Vec<Call> {
        self.book.borrow().clone()
    }
}

impl IAlloc for Recorder {
    fn allocate(&mut self, layout: Layout) -> Option<usize> {
        self.book.borrow_mut().push(Call::Asked { size: layout.size, align: layout.align });
        self.grants.borrow_mut().pop()
    }

    fn free(&mut self, origin: usize) {
        self.book.borrow_mut().push(Call::Freed { origin });
    }
}

/// A request for a block for one `T`: its prefix, and after it the value.
fn request<T>() -> Call {
    let prefix = std::alloc::Layout::new::<AllocPrefix<Recorder>>();
    let (block, _) = prefix.extend(std::alloc::Layout::new::<T>()).unwrap();
    Call::Asked { size: block.size(), align: block.align() }
}

/// A handle to a value that the allocator has a grant left for.
fn placed<T>(value: T, alloc: &Recorder, heap: &mut Heap<T, Recorder>) -> Arc<T, Recorder> {
    match Arc::try_new_in(value, alloc.clone(), heap) {
        Ok(arc) => arc,
        Err(_) => panic!("refused"),
    }
}

/// A value that counts how often it was destroyed.
struct Mortal {
    destroyed: Rc<Cell<usize>>,
    name: u32,
}

impl Drop for Mortal {
    fn drop(&mut self) {
        self.destroyed.set(self.destroyed.get() + 1);
    }
}

fn mortal(name: u32) -> (Mortal, Rc<Cell<usize>>) {
    let destroyed = Rc::new(Cell::new(0));
    (Mortal { destroyed: destroyed.clone(), name }, destroyed)
}

#[test]
fn new_stores_the_value() {
    let mut heap: Heap<u32, DefaultAllocator> = Heap::new();
    let arc = Arc::new(7u32, &mut heap);
    assert_eq!(*arc.deref(&heap), 7);
    assert_eq!(*arc.as_ref(&heap), 7);
    assert_eq!(Arc::strong_count(&arc, &heap), 1);
    assert_eq!(Arc::weak_count(&arc, &heap), 1);
    assert!(Arc::is_unique(&arc, &heap));
}

#[test]
fn make_runs_the_constructor_on_an_empty_slot() {
    let mut heap: Heap<String, DefaultAllocator> = Heap::new();
    let arc = Arc::make(
        |slot: &mut Option<String>| {
            assert!(slot.is_none());
            *slot = Some(String::from("made"));
        },
        &mut heap,
    );
    assert_eq!(arc.deref(&heap), "made");
    let other = Arc::make_in(
        |slot: &mut Option<String>| *slot = Some(String::from("made in")),
        DefaultAllocator,
        &mut heap,
    );
    assert_eq!(other.deref(&heap), "made in");
    assert_eq!(arc.deref(&heap), "made");
}

#[test]
fn the_allocator_is_asked_for_prefix_and_value_and_gets_them_back() {
    let alloc = Recorder::new(&[64]);
    let mut heap: Heap<u32, Recorder> = Heap::new();
    let arc = placed(7u32, &alloc, &mut heap);
    assert_eq!(alloc.calls(), vec![request::<u32>()]);
    arc.drop(&mut heap);
    assert_eq!(alloc.calls(), vec![request::<u32>(), Call::Freed { origin: 64 }]);
}

#[test]
fn a_request_covers_more_than_the_value() {
    let alloc = Recorder::new(&[64]);
    let mut heap: Heap<u32, Recorder> = Heap::new();
    let _arc = placed(7u32, &alloc, &mut heap);
    match alloc.calls()[0] {
        Call::Asked { size, align } => {
            assert!(size >= 3 * std::mem::size_of::<usize>() + 4);
            assert!(align >= std::mem::align_of::<usize>());
        }
        Call::Freed { .. } => panic!("freed"),
    }
}

#[test]
fn a_refused_value_comes_back() {
    let alloc = Recorder::new(&[]);
    let mut heap: Heap<String, Recorder> = Heap::new();
    match Arc::try_new_in(String::from("back"), alloc.clone(), &mut heap) {
        Ok(_) => panic!("granted"),
        Err((value, _)) => assert_eq!(value, "back"),
    }
    assert_eq!(alloc.calls().len(), 1);
}

#[test]
fn a_refused_constructor_comes_back_without_having_run() {
    let alloc = Recorder::new(&[]);
    let ran = Cell::new(false);
    let mut heap: Heap<u64, Recorder> = Heap::new();
    let constructor = |slot: &mut Option<u64>| {
        ran.set(true);
        *slot = Some(9);
    };
    match Arc::try_make_in(constructor, alloc.clone(), &mut heap) {
        Ok(_) => panic!("granted"),
        Err((constructor, _)) => {
            assert!(!ran.get());
            let mut slot = None;
            constructor(&mut slot);
            assert_eq!(slot, Some(9));
        }
    }
    assert_eq!(alloc.calls(), vec![request::<u64>()]);
}

#[test]
fn a_granted_attempt_stores_the_value() {
    let alloc = Recorder::new(&[16, 32]);
    let mut heap: Heap<u64, Recorder> = Heap::new();
    let first = match Arc::try_new_in(1, alloc.clone(), &mut heap) {
        Ok(arc) => arc,
        Err(_) => panic!("refused"),
    };
    let second = match Arc::try_make_in(|slot| *slot = Some(2), alloc.clone(), &mut heap) {
        Ok(arc) => arc,
        Err(_) => panic!("refused"),
    };
    assert_eq!(*first.deref(&heap), 1);
    assert_eq!(*second.deref(&heap), 2);
    second.drop(&mut heap);
    assert_eq!(alloc.calls()[2], Call::Freed { origin: 32 });
    assert_eq!(*first.deref(&heap), 1);
}

#[test]
fn a_reply_decides_an_attempt() {
    let alloc = Recorder::new(&[]);
    let mut heap: Heap<u64, Recorder> = Heap::new();
    let grant = Grant { alloc: alloc.clone(), origin: 56 };
    match Arc::try_make_with(|slot| *slot = Some(3), Ok(Some(grant)), &mut heap) {
        Ok(arc) => {
            assert_eq!(*arc.deref(&heap), 3);
            arc.drop(&mut heap);
        }
        Err(_) => panic!("refused"),
    }
    assert_eq!(alloc.calls(), vec![Call::Freed { origin: 56 }]);
    let refusal = Err(alloc.clone());
    assert!(Arc::try_make_with(|slot| *slot = Some(3), refusal, &mut heap).is_err());
}

#[test]
fn values_without_size_ask_for_nothing() {
    let alloc = Recorder::new(&[]);
    let mut heap: Heap<(), Recorder> = Heap::new();
    let arc = match Arc::try_new_in((), alloc.clone(), &mut heap) {
        Ok(arc) => arc,
        Err(_) => panic!("refused"),
    };
    let other = Arc::new_in((), alloc.clone(), &mut heap);
    let clone = arc.clone(&mut heap);
    assert_eq!(Arc::strong_count(&arc, &heap), 2);
    assert_eq!(Arc::strong_count(&other, &heap), 1);
    clone.drop(&mut heap);
    arc.drop(&mut heap);
    other.drop(&mut heap);
    assert!(alloc.calls().is_empty());
}

#[test]
fn clones_count_and_the_last_one_destroys() {
    let (value, destroyed) = mortal(3);
    let mut heap: Heap<Mortal, DefaultAllocator> = Heap::new();
    let first = Arc::new(value, &mut heap);
    let second = first.clone(&mut heap);
    let third = second.clone(&mut heap);
    assert_eq!(Arc::strong_count(&first, &heap), 3);
    assert_eq!(third.deref(&heap).name, 3);
    first.drop(&mut heap);
    second.drop(&mut heap);
    assert_eq!(destroyed.get(), 0);
    assert_eq!(Arc::strong_count(&third, &heap), 1);
    third.drop(&mut heap);
    assert_eq!(destroyed.get(), 1);
}

#[test]
fn a_clone_that_is_dropped_leaves_no_trace() {
    let mut heap: Heap<u8, DefaultAllocator> = Heap::new();
    let arc = Arc::new(1u8, &mut heap);
    arc.clone(&mut heap).drop(&mut heap);
    Weak::from(&arc, &mut heap).drop(&mut heap);
    assert!(Arc::is_unique(&arc, &heap));
    assert_eq!(*arc.deref(&heap), 1);
}

#[test]
fn weak_handles_keep_the_block_but_not_the_value() {
    let alloc = Recorder::new(&[128]);
    let (value, destroyed) = mortal(4);
    let mut heap: Heap<Mortal, Recorder> = Heap::new();
    let arc = placed(value, &alloc, &mut heap);
    let weak = Weak::from(&arc, &mut heap);
    let other = weak.clone(&mut heap);
    assert_eq!(Arc::weak_count(&arc, &heap), 3);
    assert!(!Arc::is_unique(&arc, &heap));
    arc.drop(&mut heap);
    assert_eq!(destroyed.get(), 1);
    assert_eq!(alloc.calls().len(), 1);
    weak.drop(&mut heap);
    assert_eq!(alloc.calls().len(), 1);
    other.drop(&mut heap);
    assert_eq!(alloc.calls()[1], Call::Freed { origin: 128 });
    assert_eq!(destroyed.get(), 1);
}

#[test]
fn upgrades_succeed_while_there_is_a_strong_handle() {
    let mut heap: Heap<u32, DefaultAllocator> = Heap::new();
    let arc = Arc::new(5u32, &mut heap);
    let weak = Weak::from(&arc, &mut heap);
    let upgraded = weak.upgrade(&mut heap).unwrap();
    assert_eq!(Arc::strong_count(&arc, &heap), 2);
    assert_eq!(*upgraded.deref(&heap), 5);
    arc.drop(&mut heap);
    assert_eq!(*upgraded.deref(&heap), 5);
    let again = weak.upgrade(&mut heap).unwrap();
    again.drop(&mut heap);
    assert_eq!(Arc::strong_count(&upgraded, &heap), 1);
    upgraded.drop(&mut heap);
    assert!(weak.upgrade(&mut heap).is_none());
    assert!(weak.upgrade(&mut heap).is_none());
    weak.drop(&mut heap);
}

#[test]
fn get_mut_wants_the_only_handle() {
    let mut heap: Heap<u32, DefaultAllocator> = Heap::new();
    let mut arc = Arc::new(1u32, &mut heap);
    *Arc::get_mut(&mut arc, &mut heap).unwrap() = 2;
    assert_eq!(*arc.deref(&heap), 2);
    let weak = Weak::from(&arc, &mut heap);
    assert!(Arc::get_mut(&mut arc, &mut heap).is_none());
    weak.drop(&mut heap);
    let clone = arc.clone(&mut heap);
    assert!(Arc::get_mut(&mut arc, &mut heap).is_none());
    *Arc::get_mut_unchecked(&mut arc, &mut heap) = 3;
    assert_eq!(*clone.deref(&heap), 3);
    clone.drop(&mut heap);
    *Arc::get_mut(&mut arc, &mut heap).unwrap() = 4;
    assert_eq!(*arc.deref(&heap), 4);
}

#[test]
fn make_mut_changes_an_unshared_value_in_place() {
    let alloc = Recorder::new(&[8]);
    let mut heap: Heap<String, Recorder> = Heap::new();
    let mut arc = placed(String::from("a"), &alloc, &mut heap);
    arc.make_mut(&mut heap).push('b');
    assert_eq!(arc.deref(&heap), "ab");
    assert_eq!(alloc.calls().len(), 1);
}

#[test]
fn make_mut_clones_a_shared_value() {
    let mut heap: Heap<String, DefaultAllocator> = Heap::new();
    let mut arc = Arc::new(String::from("a"), &mut heap);
    let other = arc.clone(&mut heap);
    arc.make_mut(&mut heap).push('b');
    assert_eq!(arc.deref(&heap), "ab");
    assert_eq!(other.deref(&heap), "a");
    assert!(Arc::is_unique(&arc, &heap));
    assert!(Arc::is_unique(&other, &heap));
}

#[test]
fn try_make_mut_asks_for_a_block_of_its_own() {
    let alloc = Recorder::new(&[8, 40]);
    let mut heap: Heap<String, Recorder> = Heap::new();
    let mut arc = placed(String::from("a"), &alloc, &mut heap);
    match arc.try_make_mut(&mut heap) {
        Ok(value) => value.push('b'),
        Err(_) => panic!("refused"),
    }
    assert_eq!(alloc.calls().len(), 1);
    let other = arc.clone(&mut heap);
    match arc.try_make_mut(&mut heap) {
        Ok(value) => value.push('c'),
        Err(_) => panic!("refused"),
    }
    assert_eq!(arc.deref(&heap), "abc");
    assert_eq!(other.deref(&heap), "ab");
    assert!(Arc::is_unique(&arc, &heap));
    assert!(Arc::is_unique(&other, &heap));
    arc.drop(&mut heap);
    other.drop(&mut heap);
    assert_eq!(
        alloc.calls(),
        vec![
            request::<String>(),
            request::<String>(),
            Call::Freed { origin: 40 },
            Call::Freed { origin: 8 },
        ]
    );
}

#[test]
fn a_refused_try_make_mut_changes_nothing() {
    let alloc = Recorder::new(&[8]);
    let mut heap: Heap<String, Recorder> = Heap::new();
    let mut arc = placed(String::from("a"), &alloc, &mut heap);
    let other = arc.clone(&mut heap);
    match arc.try_make_mut(&mut heap) {
        Ok(_) => panic!("granted"),
        Err((value, _)) => assert_eq!(value, "a"),
    }
    assert_eq!(arc.deref(&heap), "a");
    assert_eq!(Arc::strong_count(&arc, &heap), 2);
    assert_eq!(alloc.calls(), vec![request::<String>(), request::<String>()]);
    other.drop(&mut heap);
    assert!(Arc::is_unique(&arc, &heap));
}

#[test]
fn a_reply_decides_a_replacement() {
    let alloc = Recorder::new(&[8]);
    let mut heap: Heap<u32, Recorder> = Heap::new();
    let mut arc = placed(1u32, &alloc, &mut heap);
    let other = arc.clone(&mut heap);
    match arc.replace_with(2, Err(alloc.clone()), &mut heap) {
        Ok(()) => panic!("replaced"),
        Err((value, _)) => assert_eq!(value, 2),
    }
    assert_eq!(*arc.deref(&heap), 1);
    assert_eq!(Arc::strong_count(&other, &heap), 2);
    let grant = Grant { alloc: alloc.clone(), origin: 72 };
    assert!(arc.replace_with(3, Ok(Some(grant)), &mut heap).is_ok());
    assert_eq!(*arc.deref(&heap), 3);
    assert_eq!(*other.deref(&heap), 1);
    assert!(Arc::is_unique(&other, &heap));
    arc.drop(&mut heap);
    assert_eq!(alloc.calls()[1], Call::Freed { origin: 72 });
}

#[test]
fn make_mut_leaves_weak_handles_behind() {
    let mut heap: Heap<u32, DefaultAllocator> = Heap::new();
    let mut arc = Arc::new(6u32, &mut heap);
    let weak = Weak::from(&arc, &mut heap);
    *arc.make_mut(&mut heap) += 1;
    assert_eq!(*arc.deref(&heap), 7);
    assert!(weak.upgrade(&mut heap).is_none());
}

#[test]
fn make_mut_of_a_shared_value_without_size() {
    let mut heap: Heap<(), DefaultAllocator> = Heap::new();
    let mut arc = Arc::new((), &mut heap);
    let other = arc.clone(&mut heap);
    arc.make_mut(&mut heap);
    assert!(Arc::is_unique(&arc, &heap));
    assert!(Arc::is_unique(&other, &heap));
}

#[test]
fn try_into_inner_wants_the_only_handle() {
    let alloc = Recorder::new(&[24]);
    let (value, destroyed) = mortal(8);
    let mut heap: Heap<Mortal, Recorder> = Heap::new();
    let arc = placed(value, &alloc, &mut heap);
    let clone = arc.clone(&mut heap);
    let arc = match Arc::try_into_inner(arc, &mut heap) {
        Ok(_) => panic!("taken"),
        Err(arc) => arc,
    };
    clone.drop(&mut heap);
    let weak = Weak::from(&arc, &mut heap);
    let arc = match Arc::try_into_inner(arc, &mut heap) {
        Ok(_) => panic!("taken"),
        Err(arc) => arc,
    };
    weak.drop(&mut heap);
    let value = match Arc::try_into_inner(arc, &mut heap) {
        Ok(value) => value,
        Err(_) => panic!("kept"),
    };
    assert_eq!(value.name, 8);
    assert_eq!(destroyed.get(), 0);
    assert_eq!(alloc.calls()[1], Call::Freed { origin: 24 });
    drop(value);
    assert_eq!(destroyed.get(), 1);
}

#[test]
fn raw_pointers_keep_their_counts() {
    let mut heap: Heap<u32, DefaultAllocator> = Heap::new();
    let arc = Arc::new(11u32, &mut heap);
    let other = arc.clone(&mut heap);
    let raw = Arc::into_raw(arc);
    assert_eq!(Arc::strong_count(&other, &heap), 2);
    assert_eq!(Arc::increment_strong_count(raw, &mut heap), 2);
    let first = Arc::from_raw(raw);
    let second = Arc::from_raw(raw);
    assert_eq!(*second.deref(&heap), 11);
    assert_eq!(Arc::strong_count(&first, &heap), 3);
    first.drop(&mut heap);
    second.drop(&mut heap);
    assert!(Arc::is_unique(&other, &heap));
}

#[test]
fn raw_weak_pointers_keep_their_counts() {
    let mut heap: Heap<u32, DefaultAllocator> = Heap::new();
    let arc = Arc::new(12u32, &mut heap);
    let raw = Weak::into_raw(Weak::from(&arc, &mut heap));
    assert_eq!(Arc::increment_weak_count(&arc, &mut heap), 2);
    let first = Weak::from_raw(raw);
    let second = Weak::from_raw(raw);
    assert_eq!(Arc::weak_count(&arc, &heap), 3);
    assert_eq!(*first.upgrade(&mut heap).unwrap().deref(&heap), 12);
    first.drop(&mut heap);
    second.drop(&mut heap);
    assert_eq!(Arc::weak_count(&arc, &heap), 1);
}

#[test]
fn anonymized_handles_point_to_the_same_block() {
    let (value, destroyed) = mortal(13);
    let mut heap: Heap<Mortal, DefaultAllocator> = Heap::new();
    let arc = Arc::new(value, &mut heap);
    let other = arc.clone(&mut heap);
    let mut anonymous = arc.anonimize();
    assert_eq!(Arc::strong_count(&anonymous, &heap), 2);
    assert!(anonymous.try_as_mut(&mut heap).is_none());
    other.drop(&mut heap);
    anonymous.try_as_mut(&mut heap).unwrap().name = 14;
    assert_eq!(anonymous.as_ref(&heap).name, 14);
    let clone = anonymous.clone(&mut heap);
    let seen = Cell::new(0);
    clone.drop_with(|value: &mut Mortal| seen.set(value.name), &mut heap);
    assert_eq!(seen.get(), 0);
    anonymous.drop_with(|value: &mut Mortal| seen.set(value.name), &mut heap);
    assert_eq!(seen.get(), 14);
    assert_eq!(destroyed.get(), 0);
}

#[test]
fn a_destructor_takes_the_place_of_that_of_the_type() {
    let alloc = Recorder::new(&[16]);
    let (value, destroyed) = mortal(15);
    let mut heap: Heap<Mortal, Recorder> = Heap::new();
    let arc = placed(value, &alloc, &mut heap);
    let weak = Weak::from(&arc, &mut heap);
    arc.anonimize().drop_with(
        |value: &mut Mortal| value.destroyed.set(value.destroyed.get() + 10),
        &mut heap,
    );
    assert_eq!(destroyed.get(), 10);
    assert!(weak.upgrade(&mut heap).is_none());
    assert_eq!(alloc.calls().len(), 1);
    weak.drop(&mut heap);
    assert_eq!(alloc.calls()[1], Call::Freed { origin: 16 });
    assert_eq!(destroyed.get(), 10);
}

fn is_send_and_sync<X: Send + Sync>() {}

#[test]
fn handles_may_be_sent() {
    is_send_and_sync::<Arc<u32, DefaultAllocator>>();
    is_send_and_sync::<Weak<u32, DefaultAllocator>>();
    is_send_and_sync::<stabby_sync::ArcSlice<u32, DefaultAllocator>>();
    is_send_and_sync::<stabby_sync::WeakSlice<u32, DefaultAllocator>>();
}
