use handle_map::DenseHandleMap;

#[test]
fn dense_insert() {
    let mut map = DenseHandleMap::new();
    let handle = map.insert(42);
    assert_eq!(map.get(handle), Some(&42));
}

#[test]
fn dense_remove() {
    let mut map = DenseHandleMap::new();
    let handle = map.insert(42);
    assert_eq!(map.remove(handle), Some(42));
    assert_eq!(map.get(handle), None);
}

#[test]
fn dense_invalidated_handle() {
    let mut map = DenseHandleMap::new();
    let handle = map.insert(123);
    map.insert(456);
    map.remove(handle);
    let new_handle = map.insert(789);
    assert_ne!(handle, new_handle);
    assert_eq!(map.get(handle), None);
    assert_eq!(map.get(new_handle), Some(&789));
}

#[test]
fn dense_length() {
    let mut map = DenseHandleMap::new();
    assert!(map.is_empty());

    let handle = map.insert(123);
    assert_eq!(map.len(), 1);

    map.insert(456);
    assert_eq!(map.len(), 2);

    map.remove(handle);
    assert_eq!(map.len(), 1);
}

#[test]
fn dense_remove_twice_misses() {
    let mut map = DenseHandleMap::new();
    let handle = map.insert(5);
    assert_eq!(map.remove(handle), Some(5));
    assert_eq!(map.remove(handle), None);
    assert_eq!(map.get(handle), None);
    assert_eq!(map.len(), 0);
}

#[test]
fn dense_compaction_relink() {
    let mut map = DenseHandleMap::new();
    let a = map.insert("alpha");
    let b = map.insert("beta");
    let c = map.insert("gamma");

    // Removing the non-last entry moves the last one into its position; the
    // other handles must still resolve to their original values.
    assert_eq!(map.remove(a), Some("alpha"));
    assert_eq!(map.get(a), None);
    assert_eq!(map.get(b), Some(&"beta"));
    assert_eq!(map.get(c), Some(&"gamma"));
    assert_eq!(map.len(), 2);

    // Iteration afterward yields exactly the two surviving entries; the moved
    // entry now sits in the vacated position.
    let mut it = map.iter();
    assert_eq!(it.next(), Some((c, &"gamma")));
    assert_eq!(it.next(), Some((b, &"beta")));
    assert_eq!(it.next(), None);
}

#[test]
fn dense_remove_last_entry() {
    let mut map = DenseHandleMap::new();
    let a = map.insert(1);
    let b = map.insert(2);
    assert_eq!(map.remove(b), Some(2));
    assert_eq!(map.get(a), Some(&1));
    assert_eq!(map.get(b), None);
    assert_eq!(map.len(), 1);
}

#[test]
fn dense_capacity_bounds_length() {
    let mut map = DenseHandleMap::new();
    assert!(map.capacity() >= map.len());
    let mut handles = Vec::new();
    for i in 0..10 {
        handles.push(map.insert(i));
        assert!(map.capacity() >= map.len());
    }
    for handle in handles {
        map.remove(handle);
        assert!(map.capacity() >= map.len());
    }
}

#[test]
fn dense_get_mut_updates_value() {
    let mut map = DenseHandleMap::new();
    let handle = map.insert(10);
    if let Some(v) = map.get_mut(handle) {
        *v += 5;
    }
    assert_eq!(map.get(handle), Some(&15));
    let stale = map.insert(0);
    map.remove(stale);
    assert_eq!(map.get_mut(stale), None);
}

#[test]
fn dense_index_accessors() {
    let mut map = DenseHandleMap::new();
    let handle = map.insert(40);
    assert_eq!(*map.index(handle), 40);
    *map.index_mut(handle) += 2;
    assert_eq!(*map.index(handle), 42);
}

#[test]
fn dense_iteration_in_dense_order() {
    let mut map = DenseHandleMap::new();
    let a = map.insert(1);
    let b = map.insert(2);

    let mut it = map.iter();
    assert_eq!(it.next(), Some((a, &1)));
    assert_eq!(it.next(), Some((b, &2)));
    assert_eq!(it.next(), None);

    let mut handles = map.handles();
    assert_eq!(handles.next(), Some(a));
    assert_eq!(handles.next(), Some(b));
    assert_eq!(handles.next(), None);

    let mut values = map.values();
    assert_eq!(values.next(), Some(&1));
    assert_eq!(values.next(), Some(&2));
    assert_eq!(values.next(), None);
}

#[test]
fn dense_mutating_cursors() {
    let mut map = DenseHandleMap::new();
    let a = map.insert(1);
    let b = map.insert(2);

    let mut it = map.iter_mut();
    while let Some((_, value)) = it.next(&mut map) {
        *value *= 10;
    }
    assert_eq!(map.get(a), Some(&10));
    assert_eq!(map.get(b), Some(&20));

    let mut values = map.values_mut();
    while let Some(value) = values.next(&mut map) {
        *value += 1;
    }
    assert_eq!(map.get(a), Some(&11));
    assert_eq!(map.get(b), Some(&21));
}
