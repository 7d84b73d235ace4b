use slot_arena::Arena;
use slot_arena::ArenaId;

#[test]
fn arena_index_test() {
    let mut arena = Arena::new();
    let h_id = arena.allocate("h".to_string());
    let a_id = arena.allocate("a".to_string());
    let l_id = arena.allocate("l".to_string());
    let o_id = arena.allocate("o".to_string());

    assert_eq!("h".to_string(), *arena.index(h_id));
    assert_eq!("a".to_string(), *arena.index(a_id));
    assert_eq!("l".to_string(), *arena.index(l_id));
    assert_eq!("o".to_string(), *arena.index(o_id));

    let mut word = String::new();
    let mut it = arena.iter();
    while let Some(id) = it.next() {
        word.push_str(arena.index(id).as_str());
    }
    assert_eq!("halo", &word);
}

#[test]
fn arena_empty_test() {
    let arena: Arena<String> = Arena::new();
    let mut word = String::new();
    let mut it = arena.iter();
    while let Some(id) = it.next() {
        word.push_str(arena.index(id).as_str());
    }
    assert!(word.is_empty());
}

#[test]
fn reuse_test() {
    let mut arena = Arena::new();
    let first = arena.allocate("a".to_string());
    arena.free(first.clone());
    let second = arena.allocate("b".to_string());
    assert_eq!(second, first);
    assert_eq!(arena.get(second).unwrap().as_str(), "b");
    assert_eq!(arena.get(first).unwrap().as_str(), "b");
}

#[test]
fn growth_test() {
    let mut arena: Arena<u32> = Arena::new();
    assert_eq!(arena.len(), 0);
    let first = arena.allocate(10);
    assert_eq!(arena.len(), 1);
    let _second = arena.allocate(20);
    assert_eq!(arena.len(), 2);
    arena.free(first);
    assert_eq!(arena.len(), 2);
    let _reused = arena.allocate(30);
    assert_eq!(arena.len(), 2);
    let _fresh = arena.allocate(40);
    assert_eq!(arena.len(), 3);
}

#[test]
fn out_of_range_get_test() {
    let mut arena: Arena<u32> = Arena::new();
    let _ = arena.allocate(1);
    let _ = arena.allocate(2);
    assert!(arena.get(ArenaId::new(2)).is_none());
    assert!(arena.get(ArenaId::new(100)).is_none());
    assert!(arena.get_mut(ArenaId::new(2)).is_none());
    let empty: Arena<u32> = Arena::new();
    assert!(empty.get(ArenaId::new(0)).is_none());
}

#[test]
fn stale_value_test() {
    let mut arena: Arena<u32> = Arena::new();
    let id = arena.allocate(7);
    arena.free(id);
    // A freed-but-not-reallocated slot still yields its stale value.
    assert_eq!(arena.get(id), Some(&7));
}

#[test]
fn get_mut_test() {
    let mut arena: Arena<u32> = Arena::new();
    let id = arena.allocate(1);
    if let Some(slot) = arena.get_mut(id) {
        *slot = 99;
    }
    assert_eq!(arena.get(id), Some(&99));
}

#[test]
fn handle_identity_test() {
    let a: ArenaId<u32> = ArenaId::new(3);
    let b: ArenaId<u32> = ArenaId::new(3);
    let c: ArenaId<u32> = ArenaId::new(4);
    assert_eq!(a, b);
    assert_ne!(a, c);
    assert!(a < c);
    assert!(c > b);
    let copied = a;
    assert_eq!(copied, a);
    let cloned = a.clone();
    assert_eq!(cloned, a);
}

#[test]
fn empty_arena_test() {
    let arena: Arena<u32> = Arena::new();
    assert!(arena.is_empty());
    assert_eq!(arena.len(), 0);
    assert!(arena.iter().next().is_none());
    let defaulted: Arena<u32> = Arena::default();
    assert!(defaulted.is_empty());
}

#[test]
fn iter_fresh_test() {
    let mut arena: Arena<u32> = Arena::new();
    let _ = arena.allocate(5);
    let _ = arena.allocate(6);
    // Each call to iter yields a fresh, independent cursor.
    let mut first = arena.iter();
    let mut second = arena.iter();
    assert_eq!(first.next(), Some(ArenaId::new(0)));
    assert_eq!(first.next(), Some(ArenaId::new(1)));
    assert_eq!(first.next(), None);
    assert_eq!(second.next(), Some(ArenaId::new(0)));
}

#[test]
fn iter_exhausted_test() {
    let mut arena: Arena<u32> = Arena::new();
    let _ = arena.allocate(1);
    let mut it = arena.iter();
    assert_eq!(it.next(), Some(ArenaId::new(0)));
    // The sequence is finite: once exhausted, the cursor yields nothing,
    // however often it is stepped.
    assert_eq!(it.next(), None);
    assert_eq!(it.next(), None);
    assert_eq!(it.next(), None);
}

#[test]
fn halo_reuse_scenario_test() {
    let mut arena = Arena::new();
    let h0 = arena.allocate("h".to_string());
    let h1 = arena.allocate("a".to_string());
    let h2 = arena.allocate("l".to_string());
    let h3 = arena.allocate("o".to_string());
    assert_eq!(h0, ArenaId::new(0));
    assert_eq!(h1, ArenaId::new(1));
    assert_eq!(h2, ArenaId::new(2));
    assert_eq!(h3, ArenaId::new(3));
    assert_eq!(arena.get(h0).unwrap().as_str(), "h");
    assert_eq!(arena.get(h3).unwrap().as_str(), "o");

    let mut word = String::new();
    let mut it = arena.iter();
    while let Some(id) = it.next() {
        word.push_str(arena.index(id).as_str());
    }
    assert_eq!("halo", &word);

    arena.free(h1);
    let reused = arena.allocate("x".to_string());
    assert_eq!(reused, ArenaId::new(1));

    let mut again = String::new();
    let mut it2 = arena.iter();
    while let Some(id) = it2.next() {
        again.push_str(arena.index(id).as_str());
    }
    assert_eq!("hxlo", &again);
}

#[test]
fn clone_test() {
    let mut arena: Arena<u32> = Arena::new();
    let id = arena.allocate(11);
    let copy = arena.clone();
    assert_eq!(copy.len(), 1);
    assert_eq!(copy.get(id), Some(&11));
}
