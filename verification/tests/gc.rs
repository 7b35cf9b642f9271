use rlox::gc::GC;

#[test]
fn test_gc() {
    let mut gc = GC::default();
    let original = "hello".to_owned();
    let s = gc.store_string(original);
    assert_eq!("hello", s);
    assert_eq!(1, gc.n_strings());
}

#[test]
fn test_ownership() {
    let gc = GC::default();
    let mut active_gc = gc.into_active_gc();

    let original = "🦀".to_owned();
    let s = active_gc.store_string(original);
    assert_eq!("🦀", s);
    assert_eq!(1, active_gc.n_strings());
}

#[test]
fn storing_a_string_twice_keeps_one_copy() {
    let mut gc = GC::default();
    assert_eq!(0, gc.n_strings());
    gc.store_string("a".to_owned());
    gc.store_string("b".to_owned());
    let again = gc.store_string("a".to_owned());
    assert_eq!("a", again);
    assert_eq!(2, gc.n_strings());
}

#[test]
fn installed_store_starts_empty() {
    let mut active = rlox::gc::ActiveGC::install();
    assert_eq!(0, active.n_strings());
    active.store_string("x".to_owned());
    active.store_string("x".to_owned());
    assert_eq!(1, active.n_strings());
}
