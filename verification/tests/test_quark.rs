use grust::heap::Heap;
use grust::quark::{cached_or_interned, Quark, StaticQuark};
use grust::runtime::Runtime;
use std::sync::atomic::{AtomicUsize, Ordering};

#[test]
fn quarks_are_handed_out_in_order() {
    let mut rt = Heap::new();
    let a = Quark::from_static_str(&mut rt, "foo\0");
    let b = Quark::from_static_bytes(&mut rt, b"bar\0");
    assert_eq!(a.to_raw(), 1);
    assert_eq!(b.to_raw(), 2);
    assert_eq!(Quark::from_raw(2), b);
}

#[test]
fn one_string_one_quark() {
    let mut rt = Heap::new();
    let a = Quark::from_static_str(&mut rt, "foo\0");
    let b = Quark::from_static_bytes(&mut rt, b"bar\0");
    assert!(a != b);
    assert_eq!(Quark::from_static_bytes(&mut rt, b"foo\0"), a);
    assert_eq!(Quark::from_static_str(&mut rt, "bar\0"), b);
    assert_eq!(rt.quark_from_static_string(b"foo\0and more\0"), a);
}

#[test]
fn quark_to_bytes() {
    let mut rt = Heap::new();
    let a = Quark::from_static_str(&mut rt, "foo\0");
    let b = Quark::from_static_bytes(&mut rt, b"b\xffr\0");
    assert_eq!(a.to_bytes(&rt), b"foo");
    assert_eq!(b.to_bytes(&rt), b"b\xffr");
    assert_eq!(rt.quark_to_string(a), Some(b"foo".to_vec()));
    assert_eq!(rt.quark_to_string(Quark::from_raw(0)), None);
    assert_eq!(rt.quark_to_string(Quark::from_raw(3)), None);
}

#[test]
fn quark_texts() {
    let mut rt = Heap::new();
    let a = Quark::from_static_str(&mut rt, "a-error\0");
    let b = Quark::from_static_bytes(&mut rt, b"b\xffr\0");
    assert_eq!(a.to_string(&rt), "a-error");
    assert_eq!(b.to_string(&rt), "b\u{FFFD}r");
    assert_eq!(a.debug(&rt), "\"a-error\"");
    assert_eq!(b.debug(&rt), "\"b\\xffr\"");
}

#[test]
fn static_quark_remembers() {
    let mut rt = Heap::new();
    let other = Quark::from_static_bytes(&mut rt, b"other\0");
    let place = StaticQuark(b"g-io-error-quark\0", AtomicUsize::new(0));
    let first = place.get(&mut rt);
    assert!(first != other);
    assert_eq!(first.to_raw(), 2);
    assert_eq!(place.1.load(Ordering::Relaxed), 2);
    assert_eq!(first.to_bytes(&rt), b"g-io-error-quark");
    let again = place.get(&mut rt);
    assert_eq!(again, first);
    assert_eq!(place.1.load(Ordering::Relaxed), 2);
}

#[test]
fn static_quark_in_two_places() {
    // What two threads do that both find their place empty: both intern,
    // and both get the same quark.
    let mut rt = Heap::new();
    let one = StaticQuark(b"domain\0", AtomicUsize::new(0));
    let two = StaticQuark(b"domain\0", AtomicUsize::new(0));
    assert_eq!(one.get(&mut rt), two.get(&mut rt));
    assert_eq!(one.get(&mut rt).to_raw(), 1);
    assert_eq!(Quark::from_static_bytes(&mut rt, b"next\0").to_raw(), 2);
}

#[test]
fn cached_word_wins() {
    let mut rt = Heap::new();
    assert_eq!(cached_or_interned(&mut rt, b"name\0", 7), Quark::from_raw(7));
    assert_eq!(rt.quark_to_string(Quark::from_raw(1)), None);
    assert_eq!(cached_or_interned(&mut rt, b"name\0", 0), Quark::from_raw(1));
    assert_eq!(rt.quark_to_string(Quark::from_raw(1)), Some(b"name".to_vec()));
}
