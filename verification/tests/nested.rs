use pinarena::arena::Arena;

#[test]
fn scenario_nested_subobject() {
    // Outer composite of three fields: one plain field, then a nested
    // immovable sub-object of two fields, constructed through
    // `nested_field_view` plus the sub-object's own construction.
    let mut a: Arena<u64> = Arena::new();
    let mut c = a.reserve(3);
    a.write_field(&mut c, 1);
    let sub = c.nested_field_view(2);
    let hs = a.construct(sub, vec![10, 20]);
    let h = a.finish(c);

    // The sub-object behaves exactly as a standalone construction…
    assert_eq!(hs.field_count(), 2);
    assert_eq!(*a.field_accessor(&hs, 0), 10);
    assert_eq!(*a.field_accessor(&hs, 1), 20);

    // …and its fields are the outer object's fields, at the same addresses.
    assert_eq!(*a.field_accessor(&h, 0), 1);
    assert_eq!(*a.field_accessor(&h, 1), 10);
    assert_eq!(*a.field_accessor(&h, 2), 20);
    assert_eq!(hs.field_address(0), h.field_address(1));

    // A standalone construction of the same sub-object establishes the same
    // post-construction state.
    let mut b: Arena<u64> = Arena::new();
    let c2 = b.reserve(2);
    let hs2 = b.construct(c2, vec![10, 20]);
    assert_eq!(*b.field_accessor(&hs2, 0), *a.field_accessor(&hs, 0));
    assert_eq!(*b.field_accessor(&hs2, 1), *a.field_accessor(&hs, 1));
}

#[test]
fn pinned_projection() {
    // `sub_object` is the pinned accessor: it yields a handle to a field
    // region, never a replaceable value.
    let mut a: Arena<u64> = Arena::new();
    let c = a.reserve(3);
    let h = a.construct(c, vec![5, 6, 7]);
    let s = h.sub_object(1, 2);
    assert_eq!(s.field_count(), 2);
    assert_eq!(s.field_address(0), h.field_address(1));
    assert_eq!(*a.field_accessor(&s, 0), 6);
    assert_eq!(*a.field_accessor(&s, 1), 7);
}
