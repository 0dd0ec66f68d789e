use injector::Injector;
use injector::MissingDependency;
use injector::cell::SharedCell;
use injector::value::Storable;

fn plus_one(a: &u32) -> u32 {
    a + 1
}

fn cell_plus_one(a: &SharedCell) -> u32 {
    a.get() + 1
}

fn cell_inc(a: &SharedCell) {
    a.set(a.get() + 1);
}

fn plus(a: &u32, b: &u8) -> u32 {
    a + (*b as u32)
}

fn plus_3(a: &u32, b: &u8, c: &u16) -> u32 {
    a + (*b as u32) + (*c as u32)
}

fn sum_4(a: &u8, b: &u16, c: &u32, d: &u64) -> u64 {
    (*a as u64) + (*b as u64) + (*c as u64) + d
}

fn forty_two() -> u32 {
    42
}

fn text_len(s: &String) -> usize {
    s.len()
}

#[test]
fn it_works() {
    let mut i = Injector::default();
    i.add_value(10u32);

    assert_eq!(i.call(plus_one), 11);
}

#[test]
fn it_works_with_non_copy() {
    let mut i = Injector::default();
    i.add_value(SharedCell::new(20u32));

    assert_eq!(i.call(cell_plus_one), 21);
    i.call(cell_inc);
    assert_eq!(i.call(cell_plus_one), 22);
}

#[test]
fn it_works_with_multiple_values() {
    let mut i = Injector::default();
    i.add_value(5u32);
    i.add_value(80u8);
    i.add_value(100u16);

    assert_eq!(i.call(plus), 85);
    assert_eq!(i.call(plus_3), 185);
}

#[test]
fn it_works_with_inheritance() {
    let mut i1 = Injector::default();
    i1.add_value(5u32);
    let mut i2 = Injector::default().with_parent(i1);
    i2.add_value(80u8);
    i2.add_value(100u16);

    assert_eq!(i2.call(plus), 85);
    assert_eq!(i2.call(plus_3), 185);
}

#[test]
fn zero_parameter_call() {
    let i = Injector::new();
    assert_eq!(i.call(forty_two), 42);
}

#[test]
fn four_parameter_call() {
    let mut i = Injector::new();
    i.add_value(1u8);
    i.add_value(2u16);
    i.add_value(3u32);
    i.add_value(4u64);
    assert_eq!(i.call(sum_4), 10);
}

#[test]
fn get_prefers_child_over_parent() {
    let mut p = Injector::new();
    p.add_value(1u32);
    let mut c = Injector::new().with_parent(p);
    c.add_value(2u32);

    assert_eq!(c.get::<u32>(), Some(&2));
}

#[test]
fn get_falls_back_to_parent() {
    let mut p = Injector::new();
    p.add_value(5u32);
    let mut c = Injector::new().with_parent(p);
    c.add_value(80u8);

    assert_eq!(c.get::<u32>(), Some(&5));
    assert_eq!(c.get::<u8>(), Some(&80));
    assert_eq!(c.get::<u16>(), None);
}

#[test]
fn get_mut_updates_value() {
    let mut i = Injector::new();
    i.add_value(5u32);
    if let Some(x) = i.get_mut::<u32>() {
        *x = 6;
    }
    assert_eq!(i.get::<u32>(), Some(&6));
    assert_eq!(i.get_mut::<u16>(), None);
}

#[test]
fn get_mut_reaches_parent() {
    let mut p = Injector::new();
    p.add_value(5u32);
    let mut c = Injector::new().with_parent(p);
    c.add_value(80u8);
    if let Some(x) = c.get_mut::<u32>() {
        *x += 1;
    }
    assert_eq!(c.get::<u32>(), Some(&6));
}

#[test]
fn missing_dependency_fails_the_call() {
    let mut i = Injector::new();
    i.add_value(5u32);

    let r = i.try_call(plus);
    assert_eq!(r, Err(MissingDependency { key: <u8 as Storable>::key() }));

    let empty = Injector::new();
    assert!(empty.try_call(plus_one).is_err());
}

#[test]
fn try_call_succeeds_when_registered() {
    let mut i = Injector::new();
    i.add_value(10u32);
    assert_eq!(i.try_call(plus_one), Ok(11));
}

#[test]
fn stores_strings_and_wide_values() {
    let mut i = Injector::new();
    i.add_value(String::from("hello"));
    i.add_value(true);
    i.add_value(-3i64);

    assert_eq!(i.call(text_len), 5);
    assert_eq!(i.get::<bool>(), Some(&true));
    assert_eq!(i.get::<i64>(), Some(&-3));
}
