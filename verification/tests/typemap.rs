use injector::typemap::TypeMap;

#[test]
fn insert_then_get() {
    let mut m = TypeMap::new();
    m.insert(7u32);
    assert_eq!(m.get::<u32>(), Some(&7));
    assert!(m.contains::<u32>());
}

#[test]
fn insert_overwrites_previous_value() {
    let mut m = TypeMap::new();
    m.insert(1u32);
    m.insert(2u32);
    assert_eq!(m.get::<u32>(), Some(&2));
}

#[test]
fn insert_keeps_other_types() {
    let mut m = TypeMap::new();
    m.insert(1u32);
    m.insert(9u8);
    assert_eq!(m.get::<u32>(), Some(&1));
    assert_eq!(m.get::<u8>(), Some(&9));
}

#[test]
fn remove_returns_the_value() {
    let mut m = TypeMap::new();
    m.insert(9u8);
    assert_eq!(m.remove::<u8>(), Some(9));
    assert_eq!(m.get::<u8>(), None);
    assert_eq!(m.remove::<u8>(), None);
}

#[test]
fn absent_type_is_not_found() {
    let m = TypeMap::new();
    assert_eq!(m.get::<u16>(), None);
    assert!(!m.contains::<u16>());
}

#[test]
fn get_mut_changes_the_stored_value() {
    let mut m = TypeMap::new();
    m.insert(5u64);
    if let Some(x) = m.get_mut::<u64>() {
        *x = 8;
    }
    assert_eq!(m.get::<u64>(), Some(&8));
    assert_eq!(m.get_mut::<u8>(), None);
}

#[test]
fn clear_empties_the_map() {
    let mut m = TypeMap::new();
    m.insert(1u32);
    m.insert(String::from("x"));
    m.clear();
    assert!(!m.contains::<u32>());
    assert!(!m.contains::<String>());
}
