use local_storage_vec::IndexError;
use local_storage_vec::LocalStorageVec;

#[test]
fn it_from_vecs() {
    // The `vec!` macro creates a `Vec<T>` in a way that resembles
    // array-initialization syntax.
    let vec: LocalStorageVec<usize, 10> = LocalStorageVec::from(vec![1, 2, 3]);
    // Assert that the call to `from` indeed yields a `Heap` variant
    assert!(matches!(vec, LocalStorageVec::Heap(_)));

    let vec: LocalStorageVec<usize, 2> = LocalStorageVec::from(vec![1, 2, 3]);

    assert!(matches!(vec, LocalStorageVec::Heap(_)));
}

#[test]
fn it_as_refs() {
    let vec: LocalStorageVec<i32, 4> = LocalStorageVec::from([0; 2]);
    let slice: &[i32] = vec.as_ref();
    assert!(slice.len() == 2);

    let vec: LocalStorageVec<i32, 32> = LocalStorageVec::from([0; 128]);
    let slice: &[i32] = vec.as_ref();
    assert!(slice.len() == 128);

    let mut vec: LocalStorageVec<i32, 256> = LocalStorageVec::from([0; 128]);
    let slice_mut: &[i32] = vec.as_mut();
    assert!(slice_mut.len() == 128);

    let mut vec: LocalStorageVec<i32, 32> = LocalStorageVec::from([0; 128]);
    let slice_mut: &[i32] = vec.as_mut();
    assert!(slice_mut.len() == 128);
}

#[test]
fn it_constructs() {
    let vec: LocalStorageVec<usize, 10> = LocalStorageVec::new();
    // Assert that the call to `new` indeed yields a `Stack` variant with zero length
    assert!(matches!(vec, LocalStorageVec::Stack { buf: _, len: 0 }));
}

#[test]
fn it_lens() {
    let vec: LocalStorageVec<_, 3> = LocalStorageVec::from([0, 1, 2]);
    assert_eq!(vec.len(), 3);
    let vec: LocalStorageVec<_, 2> = LocalStorageVec::from([0, 1, 2]);
    assert_eq!(vec.len(), 3);
}

#[test]
fn it_pushes() {
    let mut vec: LocalStorageVec<_, 128> = LocalStorageVec::new();
    for value in 0..128 {
        vec.push(value);
    }
    assert!(matches!(vec, LocalStorageVec::Stack { len: 128, .. }));
    for value in 128..256 {
        vec.push(value);
    }
    assert!(matches!(vec, LocalStorageVec::Heap(v) if v.len() == 256))
}

#[test]
fn it_pops() {
    let mut vec: LocalStorageVec<_, 128> = LocalStorageVec::from([0; 128]);
    for _ in 0..128 {
        assert_eq!(vec.pop(), Some(0))
    }
    assert_eq!(vec.pop(), None);

    let mut vec: LocalStorageVec<_, 128> = LocalStorageVec::from([0; 256]);
    for _ in 0..256 {
        assert_eq!(vec.pop(), Some(0))
    }
    assert_eq!(vec.pop(), None);

    let mut vec: LocalStorageVec<_, 128> = LocalStorageVec::from(vec![0; 256]);
    for _ in 0..256 {
        assert_eq!(vec.pop(), Some(0))
    }
    assert_eq!(vec.pop(), None);
}

#[test]
fn it_inserts() {
    let mut vec: LocalStorageVec<_, 4> = LocalStorageVec::from([0, 1, 2]);
    vec.insert(1, 3).unwrap();
    assert!(matches!(
        vec,
        LocalStorageVec::Stack {
            buf: [0, 3, 1, 2],
            len: 4
        }
    ));

    let mut vec: LocalStorageVec<_, 4> = LocalStorageVec::from([0, 1, 2, 3]);
    vec.insert(1, 3).unwrap();
    assert!(matches!(vec, LocalStorageVec::Heap { .. }));
    assert_eq!(vec.as_ref(), &[0, 3, 1, 2, 3]);

    let mut vec: LocalStorageVec<_, 4> = LocalStorageVec::from([0, 1, 2, 3, 4]);
    vec.insert(1, 3).unwrap();
    assert!(matches!(vec, LocalStorageVec::Heap { .. }));
    assert_eq!(vec.as_ref(), &[0, 3, 1, 2, 3, 4])
}

#[test]
fn it_removes() {
    let mut vec: LocalStorageVec<_, 4> = LocalStorageVec::from([0, 1, 2]);
    let elem = vec.remove(1).unwrap();
    assert!(matches!(
        vec,
        LocalStorageVec::Stack {
            buf: [0, 2, _, _],
            len: 2
        }
    ));
    assert_eq!(elem, 1);

    let mut vec: LocalStorageVec<_, 2> = LocalStorageVec::from([0, 1, 2]);
    let elem = vec.remove(1).unwrap();
    assert!(matches!(vec, LocalStorageVec::Heap(..)));
    assert_eq!(vec.as_ref(), &[0, 2]);
    assert_eq!(elem, 1);
}

#[test]
fn it_clears() {
    let mut vec: LocalStorageVec<_, 10> = LocalStorageVec::from([0, 1, 2, 3]);
    assert!(matches!(vec, LocalStorageVec::Stack { buf: _, len: 4 }));
    vec.clear();
    assert_eq!(vec.len(), 0);

    let mut vec: LocalStorageVec<_, 3> = LocalStorageVec::from([0, 1, 2, 3]);
    assert!(matches!(vec, LocalStorageVec::Heap(_)));
    vec.clear();
    assert_eq!(vec.len(), 0);
}

#[test]
fn it_iters() {
    let vec: LocalStorageVec<_, 128> = LocalStorageVec::from([0; 32]);
    let mut iter = vec.into_iter();
    while let Some(item) = iter.next() {
        assert_eq!(item, 0);
    }
    assert_eq!(iter.next(), None);

    let vec: LocalStorageVec<_, 128> = LocalStorageVec::from(vec![0; 128]);
    let mut iter = vec.into_iter();
    while let Some(item) = iter.next() {
        assert_eq!(item, 0);
    }
    assert_eq!(iter.next(), None);
}

#[test]
fn it_indexes() {
    let vec: LocalStorageVec<i32, 10> = LocalStorageVec::from([0, 1, 2, 3, 4, 5]);
    assert_eq!(vec[1], 1);
    assert_eq!(vec[..2], [0, 1]);
    assert_eq!(vec[4..], [4, 5]);
    assert_eq!(vec[1..3], [1, 2]);
}

#[test]
fn it_borrowing_iters() {
    let vec: LocalStorageVec<u32, 10> = LocalStorageVec::from([1, 2, 3, 4]);

    let mut iter = vec.iter();
    while let Some(_) = iter.next() {}
    // This requires the `vec` not to be consumed by the call to `iter()`
    drop(vec);
}

#[test]
fn promotion_at_threshold() {
    let mut vec: LocalStorageVec<u32, 3> = LocalStorageVec::new();
    vec.push(0);
    vec.push(1);
    vec.push(2);
    assert!(matches!(vec, LocalStorageVec::Stack { len: 3, .. }));
    vec.push(3);
    assert!(matches!(vec, LocalStorageVec::Heap(_)));
    assert_eq!(vec.len(), 4);
    assert_eq!(vec.as_ref(), &[0, 1, 2, 3]);
}

#[test]
fn promotion_is_permanent() {
    let mut vec: LocalStorageVec<u32, 2> = LocalStorageVec::new();
    vec.push(0);
    vec.push(1);
    vec.push(2);
    assert!(matches!(vec, LocalStorageVec::Heap(_)));
    vec.pop();
    vec.pop();
    vec.pop();
    assert!(matches!(vec, LocalStorageVec::Heap(_)));
    vec.clear();
    assert!(matches!(vec, LocalStorageVec::Heap(_)));
}

#[test]
fn construct_small_array_inline() {
    let vec: LocalStorageVec<u32, 4> = LocalStorageVec::from([0, 1, 2]);
    assert!(matches!(vec, LocalStorageVec::Stack { len: 3, .. }));
    assert_eq!(vec.as_ref(), &[0, 1, 2]);
}

#[test]
fn construct_large_array_promoted() {
    let vec: LocalStorageVec<u32, 2> = LocalStorageVec::from([0, 1, 2]);
    assert!(matches!(vec, LocalStorageVec::Heap(_)));
    assert_eq!(vec.len(), 3);
    assert_eq!(vec.as_ref(), &[0, 1, 2]);
}

#[test]
fn round_trip_keeps_order() {
    let vec: LocalStorageVec<u32, 8> = LocalStorageVec::from([5, 4, 3]);
    assert_eq!(vec.as_ref(), &[5, 4, 3]);

    let vec: LocalStorageVec<u32, 2> = LocalStorageVec::from([5, 4, 3]);
    assert_eq!(vec.as_ref(), &[5, 4, 3]);
}

#[test]
fn insert_inline_keeps_order() {
    let mut vec: LocalStorageVec<u32, 4> = LocalStorageVec::from([0, 1, 2]);
    vec.insert(1, 3).unwrap();
    assert!(matches!(vec, LocalStorageVec::Stack { len: 4, .. }));
    assert_eq!(vec.as_ref(), &[0, 3, 1, 2]);
}

#[test]
fn insert_into_full_inline_promotes() {
    let mut vec: LocalStorageVec<u32, 4> = LocalStorageVec::from([0, 1, 2, 3]);
    vec.insert(1, 3).unwrap();
    assert!(matches!(vec, LocalStorageVec::Heap(_)));
    assert_eq!(vec.len(), 5);
    assert_eq!(vec.as_ref(), &[0, 3, 1, 2, 3]);
}

#[test]
fn remove_returns_element_both_representations() {
    let mut vec: LocalStorageVec<u32, 8> = LocalStorageVec::from([0, 1, 2]);
    assert_eq!(vec.remove(1).unwrap(), 1);
    assert_eq!(vec.as_ref(), &[0, 2]);

    let mut vec: LocalStorageVec<u32, 8> = LocalStorageVec::from(vec![0, 1, 2]);
    assert_eq!(vec.remove(1).unwrap(), 1);
    assert_eq!(vec.as_ref(), &[0, 2]);
}

#[test]
fn empty_pop_and_read_fail_cleanly() {
    let mut vec: LocalStorageVec<u32, 4> = LocalStorageVec::new();
    assert_eq!(vec.pop(), None);
    assert!(matches!(vec.get(0), Err(IndexError::OutOfBounds)));
}

#[test]
fn failed_insert_changes_nothing() {
    let mut vec: LocalStorageVec<u32, 4> = LocalStorageVec::from([0, 1, 2]);
    assert_eq!(vec.insert(4, 9), Err(IndexError::InvalidInsertion));
    assert!(matches!(vec, LocalStorageVec::Stack { len: 3, .. }));
    assert_eq!(vec.as_ref(), &[0, 1, 2]);

    let mut vec: LocalStorageVec<u32, 2> = LocalStorageVec::from(vec![0, 1, 2]);
    assert_eq!(vec.insert(4, 9), Err(IndexError::InvalidInsertion));
    assert_eq!(vec.as_ref(), &[0, 1, 2]);
}

#[test]
fn failed_remove_changes_nothing() {
    let mut vec: LocalStorageVec<u32, 4> = LocalStorageVec::from([0, 1, 2]);
    assert_eq!(vec.remove(3), Err(IndexError::InvalidRemoval));
    assert_eq!(vec.as_ref(), &[0, 1, 2]);

    let mut vec: LocalStorageVec<u32, 2> = LocalStorageVec::from(vec![0, 1, 2]);
    assert_eq!(vec.remove(3), Err(IndexError::InvalidRemoval));
    assert_eq!(vec.as_ref(), &[0, 1, 2]);
}

#[test]
fn owning_iterator_yields_all_in_order() {
    let vec: LocalStorageVec<u32, 4> = LocalStorageVec::from([10, 20, 30]);
    let expected_len = vec.len();
    let mut iter = vec.into_iter();
    let mut seen = Vec::new();
    while let Some(item) = iter.next() {
        seen.push(item);
    }
    assert_eq!(seen.len(), expected_len);
    assert_eq!(seen, vec![10, 20, 30]);
    assert_eq!(iter.next(), None);
    assert_eq!(iter.next(), None);
}

#[test]
fn borrowing_iterator_yields_all_in_order() {
    let vec: LocalStorageVec<u32, 2> = LocalStorageVec::from([10, 20, 30]);
    let mut iter = vec.iter();
    let mut seen = Vec::new();
    while let Some(item) = iter.next() {
        seen.push(item);
    }
    assert_eq!(seen, vec![10, 20, 30]);
    assert_eq!(iter.next(), None);
    assert_eq!(iter.next(), None);
    assert_eq!(vec.len(), 3);
}

#[test]
fn write_view_updates_elements_in_place() {
    let mut vec: LocalStorageVec<u32, 4> = LocalStorageVec::from([1, 2, 3]);
    let view = vec.as_mut();
    view[0] = 9;
    assert_eq!(vec.as_ref(), &[9, 2, 3]);
    assert_eq!(vec.len(), 3);
}
