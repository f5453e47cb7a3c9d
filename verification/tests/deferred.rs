use pinarena::arena::Arena;

#[derive(PartialEq, Debug)]
enum FieldV {
    Num(u64),
    Addr(usize),
}

#[test]
fn scenario_deferred_two_siblings() {
    // Composite with a deferred field computed from its two siblings; a
    // second resolution of the same field is rejected by the guarded call.
    let mut a: Arena<u64> = Arena::new();
    let mut c = a.reserve(3);
    a.write_field(&mut c, 2);
    a.write_field(&mut c, 3);
    a.mark_deferred(&mut c);
    let h = a.finish(c);

    let f = h.field_address(2);
    assert!(a.slot_is_deferred(f));
    assert!(!a.slot_is_initialized(f));

    let sum = *a.field_accessor(&h, 0) + *a.field_accessor(&h, 1);
    assert_eq!(a.try_deferred_field_set(f, sum), Ok(()));
    assert!(a.slot_is_initialized(f));
    assert_eq!(*a.field_accessor(&h, 2), 5);

    // Second resolution: rejected, the value handed back, the field kept.
    assert_eq!(a.try_deferred_field_set(f, 99), Err(99));
    assert_eq!(*a.field_accessor(&h, 2), 5);
}

#[test]
fn resolve_during_construction() {
    // Resolution may also run before construction ends, as soon as the
    // depended-upon siblings are written.
    let mut a: Arena<u64> = Arena::new();
    let mut c = a.reserve(2);
    a.write_field(&mut c, 21);
    a.mark_deferred(&mut c);
    let f = c.field_address(1);
    let double = *a.at_address(c.field_address(0)) * 2;
    a.deferred_field_set(f, double);
    let h = a.finish(c);
    assert_eq!(*a.field_accessor(&h, 1), 42);
}

#[test]
fn deferred_snapshot_semantics() {
    // The resolved field stores the value computed at resolution time: a
    // later mutation of a sibling is not visible through it.
    let mut a: Arena<u64> = Arena::new();
    let mut c = a.reserve(3);
    a.write_field(&mut c, 2);
    a.write_field(&mut c, 3);
    a.mark_deferred(&mut c);
    let h = a.finish(c);
    let f = h.field_address(2);
    let sum = *a.field_accessor(&h, 0) + *a.field_accessor(&h, 1);
    a.deferred_field_set(f, sum);
    assert_eq!(*a.field_accessor(&h, 2), 5);

    *a.field_accessor_mut(&h, 0) = 100;
    assert_eq!(*a.field_accessor(&h, 2), 5);
}

#[test]
fn deferred_live_reference_semantics() {
    // The resolved field stores a sibling's address: a later mutation of
    // the sibling is visible by reading through the stored address.
    let mut a: Arena<FieldV> = Arena::new();
    let mut c = a.reserve(2);
    a.write_field(&mut c, FieldV::Num(2));
    a.mark_deferred(&mut c);
    let h = a.finish(c);
    let f = h.field_address(1);
    let sibling = h.field_address(0);
    a.deferred_field_set(f, FieldV::Addr(sibling));

    let through = match a.field_accessor(&h, 1) {
        FieldV::Addr(p) => *p,
        FieldV::Num(_) => panic!("deferred field must hold an address"),
    };
    assert_eq!(*a.at_address(through), FieldV::Num(2));

    *a.at_address_mut(sibling) = FieldV::Num(100);
    assert_eq!(*a.at_address(through), FieldV::Num(100));
}

#[test]
fn try_set_on_plain_field_rejected() {
    // A field that was never deferred is already real data: the guarded
    // resolution refuses to overwrite it.
    let mut a: Arena<u64> = Arena::new();
    let c = a.reserve(1);
    let h = a.construct(c, vec![7]);
    let f = h.field_address(0);
    assert_eq!(a.try_deferred_field_set(f, 8), Err(8));
    assert_eq!(*a.field_accessor(&h, 0), 7);
}

#[test]
fn try_set_on_vacant_slot_rejected() {
    // A slot nothing has been written into holds no placeholder either:
    // resolution is for marked fields only.
    let mut a: Arena<u64> = Arena::new();
    let c = a.reserve(1);
    let f = c.field_address(0);
    assert_eq!(a.try_deferred_field_set(f, 8), Err(8));
    assert!(!a.slot_is_initialized(f));
    let _ = c;
}
