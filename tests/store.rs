use spring_lattice::store::{Entity, Store};

#[test]
fn spawn_get_despawn() {
    let mut s: Store<u32> = Store::new();
    let a = s.spawn(10);
    let b = s.spawn(20);
    assert_ne!(a, b);
    assert_eq!(s.get(a), Some(&10));
    assert_eq!(s.get(b), Some(&20));
    assert_eq!(s.despawn(a), Some(10));
    assert_eq!(s.get(a), None);
    assert!(!s.contains(a));
    assert_eq!(s.despawn(a), None);
    assert_eq!(s.get(b), Some(&20));
}

#[test]
fn stale_handle_stays_dead_after_reuse() {
    let mut s: Store<u32> = Store::new();
    let a = s.spawn(1);
    s.despawn(a);
    let c = s.spawn(2);
    assert_eq!(c.index, a.index);
    assert_ne!(c, a);
    assert_eq!(s.get(a), None);
    assert_eq!(s.get(c), Some(&2));
}

#[test]
fn unknown_handle() {
    let mut s: Store<u32> = Store::new();
    let e = Entity { index: 5, generation: 0 };
    assert_eq!(s.get(e), None);
    assert_eq!(s.despawn(e), None);
    assert_eq!(s.replace(e, 3), None);
    assert!(s.handles().is_empty());
}

#[test]
fn replace_value() {
    let mut s: Store<u32> = Store::new();
    let a = s.spawn(1);
    assert_eq!(s.replace(a, 7), Some(1));
    assert_eq!(s.get(a), Some(&7));
}

#[test]
fn handles_lists_live_only() {
    let mut s: Store<u32> = Store::new();
    let a = s.spawn(1);
    let b = s.spawn(2);
    let c = s.spawn(3);
    s.despawn(b);
    let h = s.handles();
    assert_eq!(h.len(), 2);
    assert!(h.contains(&a));
    assert!(h.contains(&c));
    assert!(!h.contains(&b));
}

#[test]
fn removed_handles_are_never_handed_out_again() {
    let mut s: Store<u32> = Store::new();
    let mut removed: Vec<Entity> = Vec::new();
    for round in 0..50u32 {
        let a = s.spawn(round);
        let b = s.spawn(round + 100);
        assert!(!removed.contains(&a));
        assert!(!removed.contains(&b));
        s.despawn(a);
        s.despawn(b);
        removed.push(a);
        removed.push(b);
    }
    for e in removed.iter() {
        assert_eq!(s.get(*e), None);
    }
    assert!(s.handles().is_empty());
}
