use stabby_sync::heap::AllocPrefix;
use stabby_sync::vec::Vec as HeapVec;
use stabby_sync::{Arc, ArcSlice, DefaultAllocator, Heap, IAlloc, Layout, Piece, Weak, WeakSlice};
use std::cell::RefCell;
use std::cmp::Ordering;
use std::collections::hash_map::DefaultHasher;
use std::hash::{Hash, Hasher};
use std::rc::Rc;

/// An allocator that writes down what it is asked, and grants one address or none.
#[derive(Clone)]
struct Recorder {
    book: Rc<RefCell<Vec<String>>>,
    address: Option<usize>,
}

impl Recorder {
    fn new(address: Option<usize>) -> Recorder {
        Recorder { book: Rc::new(RefCell::new(Vec::new())), address }
    }

    fn calls(&self) -> Vec<String> {
        self.book.borrow().clone()
    }
}

impl IAlloc for Recorder {
    fn allocate(&mut self, layout: Layout) -> Option<usize> {
        self.book.borrow_mut().push(format!("ask {} {}", layout.size, layout.align));
        self.address
    }

    fn free(&mut self, origin: usize) {
        self.book.borrow_mut().push(format!("free {}", origin));
    }
}

/// A request for a block for `n` values of type `T`: its prefix, and after it the values.
fn request<T>(n: usize) -> String {
    let prefix = std::alloc::Layout::new::<AllocPrefix<Recorder>>();
    let (block, _) = prefix.extend(std::alloc::Layout::array::<T>(n).unwrap()).unwrap();
    format!("ask {} {}", block.size(), block.align())
}

/// A handle to a value that the allocator grants memory for.
fn placed<T>(value: T, alloc: &Recorder, heap: &mut Heap<T, Recorder>) -> Arc<T, Recorder> {
    match Arc::try_new_in(value, alloc.clone(), heap) {
        Ok(arc) => arc,
        Err(_) => panic!("refused"),
    }
}

fn vector<T, A: IAlloc>(
    items: Vec<T>,
    capacity: usize,
    alloc: A,
    heap: &mut Heap<T, A>,
) -> HeapVec<T, A> {
    match HeapVec::try_with_items_in(items, capacity, alloc, heap) {
        Ok(vec) => vec,
        Err(_) => panic!("refused"),
    }
}

fn shared<T>(items: Vec<T>, heap: &mut Heap<T, DefaultAllocator>) -> ArcSlice<T, DefaultAllocator> {
    let capacity = items.len();
    let vec = vector(items, capacity, DefaultAllocator, heap);
    ArcSlice::from_vec(vec, heap)
}

#[test]
fn vectors_hold_their_items() {
    let alloc = Recorder::new(Some(48));
    let mut heap: Heap<u16, Recorder> = Heap::new();
    let vec = vector(vec![1, 2, 3], 4, alloc.clone(), &mut heap);
    assert_eq!(vec.len(), 3);
    assert_eq!(vec.capacity(), 4);
    assert_eq!(vec.as_slice(&heap), [1, 2, 3]);
    assert_eq!(alloc.calls(), [request::<u16>(4)]);
}

#[test]
fn vectors_may_be_refused() {
    let alloc = Recorder::new(None);
    let mut heap: Heap<u16, Recorder> = Heap::new();
    match HeapVec::try_with_items_in(vec![1, 2], 2, alloc.clone(), &mut heap) {
        Ok(_) => panic!("granted"),
        Err((items, _)) => assert_eq!(items, [1, 2]),
    }
    assert_eq!(alloc.calls(), [request::<u16>(2)]);
    match HeapVec::try_with_items_in(vec![1, 2], usize::MAX, alloc.clone(), &mut heap) {
        Ok(_) => panic!("granted"),
        Err((items, _)) => assert_eq!(items, [1, 2]),
    }
    assert!(alloc.calls()[1].starts_with(&format!("ask {} ", usize::MAX)));
}

#[test]
fn a_vector_with_memory_is_shared_in_place_and_back() {
    let alloc = Recorder::new(Some(48));
    let mut heap: Heap<u16, Recorder> = Heap::new();
    let vec = vector(vec![1, 2, 3], 5, alloc.clone(), &mut heap);
    let slice = ArcSlice::from_vec(vec, &mut heap);
    assert_eq!(slice.len(), 3);
    assert!(!slice.is_empty());
    assert_eq!(slice.as_slice(&heap), [1, 2, 3]);
    assert_eq!(ArcSlice::strong_count(&slice, &heap), 1);
    assert_eq!(ArcSlice::weak_count(&slice, &heap), 1);
    let vec = match HeapVec::try_from(slice, &mut heap) {
        Ok(vec) => vec,
        Err(_) => panic!("kept"),
    };
    assert_eq!(vec.as_slice(&heap), [1, 2, 3]);
    assert_eq!(vec.capacity(), 5);
    assert_eq!(alloc.calls(), [request::<u16>(5)]);
    let slice = ArcSlice::from_vec(vec, &mut heap);
    slice.drop(&mut heap);
    assert_eq!(alloc.calls(), [request::<u16>(5), String::from("free 48")]);
}

#[test]
fn a_shared_slice_does_not_become_a_vector() {
    let mut heap: Heap<u8, DefaultAllocator> = Heap::new();
    let slice = shared(vec![1, 2], &mut heap);
    let other = slice.clone(&mut heap);
    let slice = match HeapVec::try_from(slice, &mut heap) {
        Ok(_) => panic!("taken"),
        Err(slice) => slice,
    };
    assert_eq!(ArcSlice::strong_count(&slice, &heap), 2);
    other.drop(&mut heap);
    let weak = WeakSlice::from(&slice, &mut heap);
    let slice = match HeapVec::try_from(slice, &mut heap) {
        Ok(_) => panic!("taken"),
        Err(slice) => slice,
    };
    weak.drop(&mut heap);
    assert!(ArcSlice::is_unique(&slice, &heap));
    assert!(HeapVec::try_from(slice, &mut heap).is_ok());
}

#[test]
fn an_empty_vector_is_shared_in_a_new_block() {
    let alloc = Recorder::new(Some(96));
    let mut heap: Heap<u64, Recorder> = Heap::new();
    let vec = vector(vec![], 0, alloc.clone(), &mut heap);
    assert!(alloc.calls().is_empty());
    let slice = match ArcSlice::try_from_vec(vec, &mut heap) {
        Ok(slice) => slice,
        Err(_) => panic!("refused"),
    };
    assert_eq!(alloc.calls(), [request::<u64>(0)]);
    assert!(slice.is_empty());
    assert_eq!(slice.as_slice(&heap), []);
    let vec = match HeapVec::try_from(slice, &mut heap) {
        Ok(vec) => vec,
        Err(_) => panic!("kept"),
    };
    assert_eq!(vec.capacity(), 0);
}

#[test]
fn an_empty_vector_is_shared_by_the_default_allocator() {
    let mut heap: Heap<u64, DefaultAllocator> = Heap::new();
    let vec = vector(vec![], 0, DefaultAllocator, &mut heap);
    let slice = ArcSlice::from_vec(vec, &mut heap);
    assert!(slice.is_empty());
    assert!(ArcSlice::is_unique(&slice, &heap));
}

#[test]
fn a_refused_vector_comes_back() {
    let alloc = Recorder::new(None);
    let mut heap: Heap<(), Recorder> = Heap::new();
    let vec = vector(vec![(), ()], 2, alloc.clone(), &mut heap);
    let vec = match ArcSlice::try_from_vec(vec, &mut heap) {
        Ok(_) => panic!("granted"),
        Err(vec) => vec,
    };
    assert_eq!(alloc.calls(), [request::<()>(0)]);
    assert_eq!(vec.len(), 2);
    assert_eq!(vec.as_slice(&heap), [(), ()]);
}

#[test]
fn a_reply_decides_whether_a_vector_is_shared() {
    let alloc = Recorder::new(None);
    let mut heap: Heap<(), Recorder> = Heap::new();
    let vec = vector(vec![(), ()], 2, alloc.clone(), &mut heap);
    let vec = match ArcSlice::try_from_vec_with(vec, None, &mut heap) {
        Ok(_) => panic!("granted"),
        Err(vec) => vec,
    };
    assert_eq!(vec.as_slice(&heap), [(), ()]);
    let slice = match ArcSlice::try_from_vec_with(vec, Some(104), &mut heap) {
        Ok(slice) => slice,
        Err(_) => panic!("refused"),
    };
    assert_eq!(slice.as_slice(&heap), [(), ()]);
    slice.drop(&mut heap);
    assert_eq!(alloc.calls(), ["free 104"]);
}

#[test]
fn slices_of_values_without_size() {
    let alloc = Recorder::new(Some(7));
    let mut heap: Heap<(), Recorder> = Heap::new();
    let vec = vector(vec![(), (), ()], 9, alloc.clone(), &mut heap);
    assert!(alloc.calls().is_empty());
    let slice = match ArcSlice::try_from_vec(vec, &mut heap) {
        Ok(slice) => slice,
        Err(_) => panic!("refused"),
    };
    assert_eq!(alloc.calls(), [request::<()>(0)]);
    assert_eq!(slice.len(), 3);
    assert_eq!(slice.as_slice(&heap), [(), (), ()]);
    assert!(ArcSlice::is_unique(&slice, &heap));
    let slice = match HeapVec::try_from(slice, &mut heap) {
        Ok(_) => panic!("taken"),
        Err(slice) => slice,
    };
    slice.drop(&mut heap);
    assert_eq!(alloc.calls(), [request::<()>(0), String::from("free 7")]);
}

#[test]
fn the_only_arc_becomes_the_only_slice() {
    let mut heap: Heap<u32, DefaultAllocator> = Heap::new();
    let slice = ArcSlice::from(Arc::new(5u32, &mut heap), &mut heap);
    assert_eq!(slice.as_slice(&heap), [5]);
    assert_eq!(slice.len(), 1);
    assert_eq!(ArcSlice::strong_count(&slice, &heap), 1);
    assert_eq!(ArcSlice::weak_count(&slice, &heap), 1);
    assert!(ArcSlice::is_unique(&slice, &heap));
    let vec = match HeapVec::try_from(slice, &mut heap) {
        Ok(vec) => vec,
        Err(_) => panic!("kept"),
    };
    assert_eq!(vec.as_slice(&heap), [5]);
    assert_eq!(vec.capacity(), 1);
}

#[test]
fn an_arc_that_becomes_a_slice_keeps_its_count() {
    let alloc = Recorder::new(Some(80));
    let mut heap: Heap<u32, Recorder> = Heap::new();
    let arc = placed(22u32, &alloc, &mut heap);
    let other = arc.clone(&mut heap);
    let weak = Weak::from(&arc, &mut heap);
    let slice = ArcSlice::from(arc, &mut heap);
    assert_eq!(Arc::strong_count(&other, &heap), 2);
    let slice = match HeapVec::try_from(slice, &mut heap) {
        Ok(_) => panic!("taken"),
        Err(slice) => slice,
    };
    other.drop(&mut heap);
    assert!(slice.is_valid(&heap));
    assert_eq!(slice.as_slice(&heap), [22]);
    assert_eq!(*weak.upgrade(&mut heap).unwrap().deref(&heap), 22);
    assert_eq!(ArcSlice::strong_count(&slice, &heap), 2);
    let upgraded = weak.upgrade(&mut heap).unwrap();
    upgraded.drop(&mut heap);
    weak.drop(&mut heap);
    assert_eq!(alloc.calls(), [request::<u32>(1)]);
}

#[test]
fn the_last_slice_takes_the_value_of_an_arc_along() {
    let alloc = Recorder::new(Some(88));
    let mut heap: Heap<u32, Recorder> = Heap::new();
    let arc = placed(23u32, &alloc, &mut heap);
    let slice = ArcSlice::from(arc, &mut heap);
    let other = slice.clone(&mut heap);
    slice.drop(&mut heap);
    assert_eq!(other.as_slice(&heap), [23]);
    assert_eq!(alloc.calls(), [request::<u32>(1)]);
    other.drop(&mut heap);
    assert_eq!(alloc.calls(), [request::<u32>(1), String::from("free 88")]);
}

#[test]
fn slices_are_changed_by_the_only_handle() {
    let mut heap: Heap<u8, DefaultAllocator> = Heap::new();
    let mut slice = shared(vec![1, 2, 3], &mut heap);
    slice.as_slice_mut(&mut heap).unwrap()[1] = 9;
    assert_eq!(slice.as_slice(&heap), [1, 9, 3]);
    let weak = WeakSlice::from(&slice, &mut heap);
    assert!(slice.as_slice_mut(&mut heap).is_none());
    weak.drop(&mut heap);
    let other = slice.clone(&mut heap);
    assert!(slice.as_slice_mut(&mut heap).is_none());
    slice.as_slice_mut_unchecked(&mut heap)[0] = 8;
    assert_eq!(other.as_slice(&heap), [8, 9, 3]);
}

#[test]
fn weak_slices_keep_the_block_but_not_the_values() {
    let alloc = Recorder::new(Some(32));
    let mut heap: Heap<Rc<u8>, Recorder> = Heap::new();
    let value = Rc::new(1u8);
    let items = vec![value.clone(), value.clone()];
    let vec = vector(items, 2, alloc.clone(), &mut heap);
    let slice = ArcSlice::from_vec(vec, &mut heap);
    let weak = WeakSlice::from(&slice, &mut heap);
    let other = weak.clone(&mut heap);
    assert_eq!(ArcSlice::weak_count(&slice, &heap), 3);
    let upgraded = weak.upgrade(&mut heap).unwrap();
    assert_eq!(upgraded.len(), 2);
    assert_eq!(ArcSlice::strong_count(&slice, &heap), 2);
    slice.drop(&mut heap);
    assert_eq!(Rc::strong_count(&value), 3);
    upgraded.drop(&mut heap);
    assert_eq!(Rc::strong_count(&value), 1);
    assert!(weak.upgrade(&mut heap).is_none());
    weak.drop(&mut heap);
    assert_eq!(alloc.calls().len(), 1);
    other.drop(&mut heap);
    assert_eq!(alloc.calls()[1], "free 32");
}

#[test]
fn slices_compare_by_their_values() {
    let mut heap: Heap<i32, DefaultAllocator> = Heap::new();
    let mut other: Heap<i32, DefaultAllocator> = Heap::new();
    let a = shared(vec![1, 2, 3], &mut heap);
    let b = shared(vec![1, 2, 3], &mut other);
    let c = shared(vec![1, 2], &mut heap);
    let d = shared(vec![1, 3], &mut heap);
    let e = shared(vec![], &mut heap);
    assert!(a.eq(&heap, &b, &other));
    assert!(!a.eq(&heap, &c, &heap));
    assert!(!c.eq(&heap, &d, &heap));
    assert!(e.eq(&heap, &e, &heap));
    assert_eq!(a.cmp(&heap, &b, &other), Ordering::Equal);
    assert_eq!(a.cmp(&heap, &c, &heap), Ordering::Greater);
    assert_eq!(c.cmp(&heap, &a, &heap), Ordering::Less);
    assert_eq!(a.cmp(&heap, &d, &heap), Ordering::Less);
    assert_eq!(e.cmp(&heap, &c, &heap), Ordering::Less);
    assert_eq!(d.partial_cmp(&heap, &a, &heap), Some(Ordering::Greater));
    assert_eq!(a.partial_cmp(&heap, &b, &other), Some(Ordering::Equal));
}

fn hash_of(values: &[i32]) -> u64 {
    let mut hasher = DefaultHasher::new();
    values.hash(&mut hasher);
    hasher.finish()
}

#[test]
fn only_values_matter_to_comparisons() {
    let mut heap: Heap<i32, DefaultAllocator> = Heap::new();
    let mut other: Heap<i32, DefaultAllocator> = Heap::new();
    let _first = shared(vec![9], &mut other);
    let a = shared(vec![4, 5], &mut heap);
    let roomy = vector(vec![4, 5], 8, DefaultAllocator, &mut other);
    let b = ArcSlice::from_vec(roomy, &mut other);
    let _clone = b.clone(&mut other);
    let _weak = WeakSlice::from(&b, &mut other);
    assert!(a.eq(&heap, &b, &other));
    assert!(b.eq(&other, &a, &heap));
    assert_eq!(a.cmp(&heap, &b, &other), Ordering::Equal);
    assert_eq!(a.partial_cmp(&heap, &b, &other), Some(Ordering::Equal));
    assert_eq!(hash_of(a.as_slice(&heap)), hash_of(b.as_slice(&other)));
}

#[test]
fn equality_and_order_agree() {
    let samples: [&[i32]; 6] = [&[], &[1], &[1, 2], &[1, 3], &[2], &[2, 0, 0]];
    let mut heap: Heap<i32, DefaultAllocator> = Heap::new();
    let mut slices = Vec::new();
    for sample in samples {
        slices.push(shared(sample.to_vec(), &mut heap));
    }
    for (i, a) in slices.iter().enumerate() {
        for (j, b) in slices.iter().enumerate() {
            let order = a.cmp(&heap, b, &heap);
            assert_eq!(order, i.cmp(&j));
            assert_eq!(a.partial_cmp(&heap, b, &heap), Some(order));
            assert_eq!(a.eq(&heap, b, &heap), order == Ordering::Equal);
            assert_eq!(b.cmp(&heap, a, &heap), order.reverse());
        }
    }
}

#[test]
fn slices_without_an_order() {
    let mut heap: Heap<f64, DefaultAllocator> = Heap::new();
    let a = shared(vec![1.0, f64::NAN], &mut heap);
    let b = shared(vec![1.0, 2.0], &mut heap);
    let c = shared(vec![0.0, f64::NAN], &mut heap);
    assert_eq!(a.partial_cmp(&heap, &b, &heap), None);
    assert_eq!(a.partial_cmp(&heap, &c, &heap), Some(Ordering::Greater));
    assert!(!a.eq(&heap, &a, &heap));
}

fn hex(slice: &ArcSlice<u8, DefaultAllocator>, heap: &Heap<u8, DefaultAllocator>) -> String {
    let mut text = String::new();
    for piece in slice.hex_pieces(heap) {
        match piece {
            Piece::Separator => text.push(':'),
            Piece::Value(value) => text.push_str(&format!("{:x}", value)),
        }
    }
    text
}

#[test]
fn hexadecimal_values_are_separated() {
    let mut heap: Heap<u8, DefaultAllocator> = Heap::new();
    let none = shared(vec![], &mut heap);
    let one = shared(vec![255], &mut heap);
    let three = shared(vec![1, 10, 255], &mut heap);
    assert_eq!(hex(&none, &heap), "");
    assert_eq!(hex(&one, &heap), "ff");
    assert_eq!(hex(&three, &heap), "1:a:ff");
}

#[test]
fn iteration_is_in_order() {
    let mut heap: Heap<u8, DefaultAllocator> = Heap::new();
    let slice = shared(vec![3, 1, 2], &mut heap);
    let walked: Vec<u8> = slice.into_iter(&heap).copied().collect();
    assert_eq!(walked, [3, 1, 2]);
}
