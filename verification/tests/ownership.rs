use cidre::arc::Retain;
use cidre::arc::R;
use cidre::cf::Number;
use cidre::cf::String;
use cidre::cf::Type;
use cidre::foreign::Runtime;

#[test]
fn new_runtime_is_empty() {
    let rt = Runtime::new();
    assert!(rt.has_room());
    assert_eq!(rt.next_addr(), 1);
}

#[test]
fn creation_hands_out_exactly_one_count() {
    let mut rt = Runtime::new();
    let n = Number::from_i64(&mut rt, 42);
    let handle: Type = *n.as_type_ref();
    assert!(rt.is_live(&handle));
    assert_eq!(rt.retain_count(&handle), 1);
    n.release(&mut rt);
    assert!(!rt.is_live(&handle));
    assert_eq!(rt.retain_count(&handle), 0);
}

#[test]
fn retain_then_release_leaves_the_count_as_it_was() {
    let mut rt = Runtime::new();
    let n = Number::from_i64(&mut rt, 7);
    let handle: Type = *n.as_type_ref();
    let before = rt.retain_count(&handle);
    let again = n.retained(&mut rt);
    assert_eq!(rt.retain_count(&handle), before + 1);
    again.release(&mut rt);
    assert_eq!(rt.retain_count(&handle), before);
    assert_eq!(n.to_i64(&rt), 7);
    n.release(&mut rt);
}

#[test]
fn two_owners_release_first_then_second() {
    let mut rt = Runtime::new();
    let first = String::from_str(&mut rt, "shared");
    let second = first.retained(&mut rt);
    let handle: Type = *first.as_type_ref();
    assert_eq!(rt.retain_count(&handle), 2);
    first.release(&mut rt);
    assert_eq!(rt.retain_count(&handle), 1);
    assert!(rt.is_live(&handle));
    assert_eq!(second.to_string(&rt), "shared");
    second.release(&mut rt);
    assert_eq!(rt.retain_count(&handle), 0);
    assert!(!rt.is_live(&handle));
}

#[test]
fn two_owners_release_second_then_first() {
    let mut rt = Runtime::new();
    let first = String::from_str(&mut rt, "shared");
    let second = first.retained(&mut rt);
    let handle: Type = *first.as_type_ref();
    assert_eq!(rt.retain_count(&handle), 2);
    second.release(&mut rt);
    assert_eq!(rt.retain_count(&handle), 1);
    assert!(rt.is_live(&handle));
    assert_eq!(first.to_string(&rt), "shared");
    first.release(&mut rt);
    assert_eq!(rt.retain_count(&handle), 0);
    assert!(!rt.is_live(&handle));
}

#[test]
fn release_of_one_object_leaves_the_others() {
    let mut rt = Runtime::new();
    let a = Number::from_i64(&mut rt, 1);
    let b = Number::from_i64(&mut rt, 2);
    let hb: Type = *b.as_type_ref();
    a.release(&mut rt);
    assert!(rt.is_live(&hb));
    assert_eq!(rt.retain_count(&hb), 1);
    assert_eq!(b.to_i64(&rt), 2);
    b.release(&mut rt);
}

#[test]
fn addresses_start_at_one_and_are_never_used_twice() {
    let mut rt = Runtime::new();
    let a = Number::from_i64(&mut rt, 1);
    let ha: Type = *a.as_type_ref();
    assert_eq!(ha.as_type_ptr(), 1);
    a.release(&mut rt);
    let b = Number::from_i64(&mut rt, 2);
    let hb: Type = *b.as_type_ref();
    assert_eq!(hb.as_type_ptr(), 2);
    assert!(!rt.is_live(&ha));
    assert_ne!(ha, hb);
    b.release(&mut rt);
}

#[test]
fn handles_of_objects_are_not_tagged() {
    let mut rt = Runtime::new();
    let a = Number::from_i64(&mut rt, 1);
    assert!(!a.is_tagged_ptr());
    assert_eq!(a.as_type_ref().as_type_ref().as_type_ptr(), 1);
    a.release(&mut rt);
}

#[test]
fn retain_through_the_bare_handle() {
    let mut rt = Runtime::new();
    let n = Number::from_i64(&mut rt, -3);
    let handle: Type = *n.as_type_ref();
    let as_number: R<Number> = Type::retain(&handle, &mut rt);
    let as_type: R<Type> = handle.retained(&mut rt);
    assert_eq!(rt.retain_count(&handle), 3);
    assert_eq!(as_number.to_i64(&rt), -3);
    as_type.release(&mut rt);
    as_number.release(&mut rt);
    n.release(&mut rt);
    assert!(!rt.is_live(&handle));
}

#[test]
fn retained_through_the_trait() {
    let mut rt = Runtime::new();
    let n = Number::from_i16(&mut rt, 0);
    let view: Number = *n;
    let again = Retain::retained(&view, &mut rt);
    assert_eq!(rt.retain_count(&view), 2);
    n.release(&mut rt);
    assert_eq!(again.to_i64(&rt), 0);
    again.release(&mut rt);
    assert_eq!(rt.retain_count(&view), 0);
}

#[test]
fn a_dead_object_has_no_type_and_no_count() {
    let mut rt = Runtime::new();
    let n = Number::from_i64(&mut rt, 9);
    let handle: Type = *n.as_type_ref();
    n.release(&mut rt);
    assert_eq!(handle.get_type_id(&rt), 0);
    assert_eq!(rt.retain_count(&handle), 0);
    assert!(handle.try_as_number(&rt).is_none());
}

#[test]
fn a_release_is_not_undone_by_later_calls() {
    let mut rt = Runtime::new();
    let a = Number::from_i64(&mut rt, 1);
    let ha: Type = *a.as_type_ref();
    a.release(&mut rt);
    let b = String::from_str(&mut rt, "later");
    let c = b.retained(&mut rt);
    assert!(!rt.is_live(&ha));
    assert_eq!(rt.retain_count(&ha), 0);
    b.release(&mut rt);
    c.release(&mut rt);
    assert!(!rt.is_live(&ha));
}

#[test]
fn many_retains_and_releases_balance() {
    let mut rt = Runtime::new();
    let first = Number::from_i64(&mut rt, 3);
    let handle: Type = *first.as_type_ref();
    let mut held = Vec::new();
    for i in 0..10u64 {
        held.push(first.retained(&mut rt));
        assert_eq!(rt.retain_count(&handle), i + 2);
    }
    let mut left = 11;
    while let Some(r) = held.pop() {
        r.release(&mut rt);
        left -= 1;
        assert_eq!(rt.retain_count(&handle), left);
        assert!(rt.is_live(&handle));
    }
    first.release(&mut rt);
    assert!(!rt.is_live(&handle));
}
