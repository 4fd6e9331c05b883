use compiler::interner::Interner;

#[test]
fn interning_twice_gives_one_handle() {
    let mut interner = Interner::with_capacity(16);
    let a = interner.intern("alpha");
    let b = interner.intern("beta");
    let again = interner.intern("alpha");
    assert_eq!(a, again);
    assert_ne!(a, b);
    assert_eq!(interner.len(), 2);
    assert_eq!(interner.lookup(&a), "alpha");
    assert_eq!(interner.lookup(&b), "beta");
}

#[test]
fn handles_do_not_depend_on_order() {
    let mut first = Interner::with_capacity(0);
    let mut second = Interner::with_capacity(0);
    let a1 = first.intern("a");
    let b1 = first.intern("b");
    let b2 = second.intern("b");
    let a2 = second.intern("a");
    assert_eq!(first.lookup(&a1), second.lookup(&a2));
    assert_eq!(first.lookup(&b1), second.lookup(&b2));
    assert_eq!(first.intern("a"), a1);
    assert_eq!(second.intern("a"), a2);
}

#[test]
fn find_and_get() {
    let mut interner = Interner::with_capacity(1);
    assert_eq!(interner.find("x"), None);
    let x = interner.intern("x");
    assert_eq!(interner.find("x"), Some(x));
    assert_eq!(interner.get(x), Some("x"));
    assert_eq!(interner.try_intern("x"), Some(x));
    assert_eq!(interner.try_intern(""), interner.find(""));
}
