use handle_map::SparseHandleMap;

#[test]
fn sparse_insert() {
    let mut map = SparseHandleMap::new();
    let handle = map.insert(42);
    assert_eq!(map.get(handle), Some(&42));
}

#[test]
fn sparse_remove() {
    let mut map = SparseHandleMap::new();
    let handle = map.insert(42);
    assert_eq!(map.remove(handle), Some(42));
    assert_eq!(map.get(handle), None);
}

#[test]
fn sparse_invalidated_handle() {
    let mut map = SparseHandleMap::new();
    let handle = map.insert(123);
    map.insert(456);
    map.remove(handle);
    let new_handle = map.insert(789);
    assert_ne!(handle, new_handle);
    assert_eq!(map.get(handle), None);
    assert_eq!(map.get(new_handle), Some(&789));
}

#[test]
fn sparse_length() {
    let mut map = SparseHandleMap::new();
    assert!(map.is_empty());

    let handle = map.insert(123);
    assert_eq!(map.len(), 1);

    map.insert(456);
    assert_eq!(map.len(), 2);

    map.remove(handle);
    assert_eq!(map.len(), 1);
}

#[test]
fn sparse_remove_twice_misses() {
    let mut map = SparseHandleMap::new();
    let handle = map.insert(5);
    assert_eq!(map.remove(handle), Some(5));
    assert_eq!(map.remove(handle), None);
    assert_eq!(map.get(handle), None);
    assert_eq!(map.len(), 0);
}

#[test]
fn sparse_prediction_before_fresh_insert() {
    let mut map = SparseHandleMap::new();
    let predicted = map.predict_next_handle();
    let handle = map.insert(1);
    assert_eq!(predicted, handle);
}

#[test]
fn sparse_prediction_before_reusing_insert() {
    let mut map = SparseHandleMap::new();
    let first = map.insert(1);
    map.insert(2);
    map.remove(first);
    let predicted = map.predict_next_handle();
    let handle = map.insert(3);
    assert_eq!(predicted, handle);
    assert_ne!(handle, first);
}

#[test]
fn sparse_prediction_of_later_inserts() {
    let mut map = SparseHandleMap::new();
    map.insert(1);
    let second = map.predict_handle(1);
    map.insert(2);
    let handle = map.insert(3);
    assert_eq!(second, handle);
}

#[test]
fn sparse_fifo_reuse_order() {
    let mut map = SparseHandleMap::new();
    let a = map.insert(1);
    let b = map.insert(2);
    map.insert(3);
    map.remove(a);
    map.remove(b);
    // The slot freed first is reused first.
    let d = map.insert(4);
    let e = map.insert(5);
    assert_eq!(d.index(), a.index());
    assert_eq!(e.index(), b.index());
    assert_eq!(d.meta(), a.meta() + 1);
    assert_eq!(map.get(d), Some(&4));
    assert_eq!(map.get(e), Some(&5));
}

#[test]
fn sparse_capacity_bounds_length() {
    let mut map = SparseHandleMap::new();
    assert!(map.capacity() >= map.len());
    let mut handles = Vec::new();
    for i in 0..10 {
        handles.push(map.insert(i));
        assert!(map.capacity() >= map.len());
    }
    for handle in handles {
        map.remove(handle);
        assert!(map.capacity() >= map.len());
    }
}

#[test]
fn sparse_get_mut_updates_value() {
    let mut map = SparseHandleMap::new();
    let handle = map.insert(10);
    if let Some(v) = map.get_mut(handle) {
        *v += 5;
    }
    assert_eq!(map.get(handle), Some(&15));
    let stale = map.insert(0);
    map.remove(stale);
    assert_eq!(map.get_mut(stale), None);
}

#[test]
fn sparse_index_accessors() {
    let mut map = SparseHandleMap::new();
    let handle = map.insert(40);
    assert_eq!(*map.index(handle), 40);
    *map.index_mut(handle) += 2;
    assert_eq!(*map.index(handle), 42);
}

#[test]
fn sparse_iteration_in_slot_order() {
    let mut map = SparseHandleMap::new();
    let a = map.insert(1);
    let b = map.insert(2);
    let c = map.insert(3);
    map.remove(b);

    let mut it = map.iter();
    assert_eq!(it.next(), Some((a, &1)));
    assert_eq!(it.next(), Some((c, &3)));
    assert_eq!(it.next(), None);

    let mut handles = map.handles();
    assert_eq!(handles.next(), Some(a));
    assert_eq!(handles.next(), Some(c));
    assert_eq!(handles.next(), None);

    let mut values = map.values();
    assert_eq!(values.next(), Some(&1));
    assert_eq!(values.next(), Some(&3));
    assert_eq!(values.next(), None);
}

#[test]
fn sparse_iteration_restarts_independently() {
    let mut map = SparseHandleMap::new();
    map.insert(7);
    let mut first = map.values();
    assert_eq!(first.next(), Some(&7));
    let mut second = map.values();
    assert_eq!(second.next(), Some(&7));
    assert_eq!(first.next(), None);
}

#[test]
fn sparse_mutating_cursors() {
    let mut map = SparseHandleMap::new();
    let a = map.insert(1);
    let b = map.insert(2);
    map.remove(a);

    let mut it = map.iter_mut();
    while let Some((handle, value)) = it.next(&mut map) {
        assert_eq!(handle, b);
        *value *= 10;
    }
    assert_eq!(map.get(b), Some(&20));

    let mut values = map.values_mut();
    while let Some(value) = values.next(&mut map) {
        *value += 1;
    }
    assert_eq!(map.get(b), Some(&21));
}
