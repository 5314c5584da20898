use handle_map::Handle;

#[test]
fn from_parts() {
    let meta = 1234;
    let index = 5678;
    let uindex = index as usize;
    let raw = ((meta as u64) << u32::BITS) + index as u64;
    let handle = Handle::<()>::from_parts(meta, index);
    assert_eq!(handle.meta(), meta);
    assert_eq!(handle.index(), index);
    assert_eq!(handle.uindex(), uindex);
    assert_eq!(handle.raw(), raw);
}

#[test]
fn from_raw() {
    let meta = 1234;
    let index = 5678;
    let uindex = index as usize;
    let raw = ((meta as u64) << u32::BITS) + index as u64;
    let handle = Handle::<()>::from_raw(raw);
    assert_eq!(handle.meta(), meta);
    assert_eq!(handle.index(), index);
    assert_eq!(handle.uindex(), uindex);
    assert_eq!(handle.raw(), raw);
}

#[test]
fn handle_equality_by_raw_bits() {
    let a = Handle::<u32>::from_parts(7, 9);
    let b = Handle::<u32>::from_raw(a.raw());
    assert_eq!(a, b);
    let c = Handle::<u32>::from_parts(8, 9);
    assert_ne!(a, c);
}

#[test]
fn handle_cast_keeps_bits() {
    let a = Handle::<u32>::from_parts(3, 4);
    let b: Handle<String> = a.cast();
    assert_eq!(b.raw(), a.raw());
    assert_eq!(b.meta(), 3);
    assert_eq!(b.index(), 4);
}

#[test]
fn handle_ordering_by_raw_bits() {
    let low = Handle::<()>::from_parts(0, 5);
    let high = Handle::<()>::from_parts(1, 0);
    assert!(low < high);
    assert!(high > low);
    assert!(low <= Handle::<()>::from_raw(low.raw()));
}

#[test]
fn handle_extreme_parts() {
    let handle = Handle::<()>::from_parts(u32::MAX, u32::MAX);
    assert_eq!(handle.raw(), u64::MAX);
    assert_eq!(handle.meta(), u32::MAX);
    assert_eq!(handle.index(), u32::MAX);
}
