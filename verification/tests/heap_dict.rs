use std::sync::Arc;
use leadlang::dict::Dict;
use leadlang::extends::ExtendsInternal;
use leadlang::heap::Heap;
use leadlang::value::{BufValue, Ref};

fn defaults() -> Arc<ExtendsInternal> {
    Arc::new(ExtendsInternal::new())
}

fn is_int(v: Option<&BufValue>, n: i64) -> bool {
    matches!(v, Some(BufValue::Int(x)) if *x == n)
}

#[test]
fn set_then_get() {
    let mut h = Heap::new(defaults());
    assert!(h.set("$x".to_string(), BufValue::Int(4)).is_some());
    assert!(is_int(h.get("$x"), 4));
    assert!(h.get("$y").is_none());
}

#[test]
fn set_keeps_other_keys() {
    let mut h = Heap::new(defaults());
    h.set("$a".to_string(), BufValue::Int(1));
    h.set("$b".to_string(), BufValue::Int(2));
    h.set("$a".to_string(), BufValue::Int(3));
    assert!(is_int(h.get("$a"), 3));
    assert!(is_int(h.get("$b"), 2));
}

#[test]
fn set_refuses_keys_without_dollar() {
    let mut h = Heap::new(defaults());
    assert!(h.set("x".to_string(), BufValue::Int(1)).is_none());
    assert!(h.get("x").is_none());
    assert!(h.set("self.$x".to_string(), BufValue::Int(1)).is_none());
}

#[test]
fn set_then_remove_moves_out() {
    let mut h = Heap::new(defaults());
    h.set("$x".to_string(), BufValue::Int(9));
    assert!(h.remove("$x").is_none());
    match h.remove("->$x") {
        Some(Some(BufValue::Int(9))) => {}
        _ => panic!("expected the value"),
    }
    assert!(h.get("$x").is_none());
    assert!(matches!(h.remove("->$x"), Some(None)));
}

#[test]
fn get_mut_writes_through() {
    let mut h = Heap::new(defaults());
    h.set("$x".to_string(), BufValue::Int(1));
    assert!(h.get_mut("$x").is_none());
    *h.get_mut("->&$x").unwrap() = BufValue::Int(5);
    assert!(is_int(h.get("$x"), 5));
}

#[test]
fn pointers_read_through() {
    let mut h = Heap::new(defaults());
    h.set("$p".to_string(), BufValue::Pointer(Ref { addr: 16, target: Some(Box::new(BufValue::Int(7))) }));
    h.set("$n".to_string(), BufValue::Pointer(Ref { addr: 0, target: None }));
    assert!(is_int(h.get("$p"), 7));
    assert!(h.get("$n").is_none());
    assert!(h.get_mut("->&$p").is_none());
    h.set("$m".to_string(), BufValue::PointerMut(Ref { addr: 24, target: Some(Box::new(BufValue::Int(1))) }));
    *h.get_mut("->&$m").unwrap() = BufValue::Int(2);
    assert!(is_int(h.get("$m"), 2));
}

#[test]
fn parent_heap_is_reached_through_self() {
    let mut parent = Heap::new(defaults());
    parent.set("$count".to_string(), BufValue::Int(10));
    let mut child = Heap::new_with_this(parent, defaults());
    assert!(is_int(child.get("self.$count"), 10));
    assert!(child.set("self.$count".to_string(), BufValue::Int(11)).is_some());
    assert!(is_int(child.get("self.$count"), 11));
    assert!(child.get("$count").is_none());
    assert!(matches!(child.remove("self.->$count"), Some(Some(BufValue::Int(11)))));
    let parent = child.into_parent().unwrap();
    assert!(parent.get("$count").is_none());
}

#[test]
fn clear_forgets_everything() {
    let mut h = Heap::new(defaults());
    h.set("$x".to_string(), BufValue::Int(1));
    h.clear();
    assert!(h.get("$x").is_none());
    assert!(h.this.is_none());
}

#[test]
fn dictionary_basics() {
    let mut d: Dict<u64> = Dict::new();
    d.insert("a".to_string(), 1);
    d.insert("b".to_string(), 2);
    d.insert("a".to_string(), 3);
    assert_eq!(d.len(), 2);
    assert_eq!(d.get("a"), Some(&3));
    assert!(d.contains_key("b"));
    assert_eq!(d.remove("b"), Some(2));
    assert!(!d.contains_key("b"));
    assert_eq!(d.remove("b"), None);
    *d.get_mut("a").unwrap() = 8;
    assert_eq!(d.get("a"), Some(&8));
}

#[test]
fn dictionary_first_entry_wins() {
    let d = Dict::from_entries(vec![("k".to_string(), 1u64), ("k".to_string(), 2u64)]);
    assert_eq!(d.get("k"), Some(&1));
    let mut d = d;
    assert_eq!(d.remove("k"), Some(1));
    assert_eq!(d.get("k"), None);
}
