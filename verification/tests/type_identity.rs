use cidre::cf::Number;
use cidre::cf::String;
use cidre::cf::Type;
use cidre::cm::SampleBuf;
use cidre::core_audio::TapDesc;
use cidre::foreign::Runtime;

#[test]
fn a_string_narrows_to_a_string_and_not_to_a_number() {
    let mut rt = Runtime::new();
    let s = String::from_str(&mut rt, "text");
    let handle: Type = *s.as_type_ref();
    assert_ne!(handle.get_type_id(&rt), Number::type_id());
    assert!(handle.try_as_number(&rt).is_none());
    let view = handle.try_as_string(&rt).expect("a string narrows to a string");
    assert_eq!(view.to_string(&rt), "text");
    s.release(&mut rt);
}

#[test]
fn a_number_narrows_to_a_number_and_not_to_a_string() {
    let mut rt = Runtime::new();
    let n = Number::from_i64(&mut rt, 11);
    let handle: Type = *n.as_type_ref();
    assert_eq!(handle.get_type_id(&rt), Number::type_id());
    assert!(handle.try_as_string(&rt).is_none());
    let view = handle.try_as_number(&rt).expect("a number narrows to a number");
    assert_eq!(view.to_i64(&rt), 11);
    n.release(&mut rt);
}

#[test]
fn the_type_tags_are_all_different() {
    let tags = [
        cidre::cf::Null::type_id(),
        cidre::cf::Array::type_id(),
        Number::type_id(),
        String::type_id(),
        SampleBuf::type_id(),
        TapDesc::type_id(),
    ];
    for i in 0..tags.len() {
        assert_ne!(tags[i], 0);
        for j in 0..i {
            assert_ne!(tags[i], tags[j]);
        }
    }
    assert_eq!(String::type_id(), 7);
    assert_eq!(Number::type_id(), 22);
}

#[test]
fn generic_narrowing_follows_the_type_tag() {
    let mut rt = Runtime::new();
    let n = Number::from_i64(&mut rt, 5);
    let s = String::from_str(&mut rt, "five");
    let b = SampleBuf::new(&mut rt, None, true, None).unwrap();
    let d = TapDesc::new(&mut rt);
    let hn: Type = *n.as_type_ref();
    let hs: Type = *s.as_type_ref();
    let hb: Type = *b.as_type_ref();
    let hd: Type = *d.as_type_ref();

    assert!(hn.try_as::<Number>(&rt).is_some());
    assert!(hn.try_as::<String>(&rt).is_none());
    assert!(hn.try_as::<SampleBuf>(&rt).is_none());
    assert!(hn.try_as::<TapDesc>(&rt).is_none());

    assert!(hs.try_as::<Number>(&rt).is_none());
    assert!(hs.try_as::<String>(&rt).is_some());
    assert!(hs.try_as::<SampleBuf>(&rt).is_none());
    assert!(hs.try_as::<TapDesc>(&rt).is_none());

    assert!(hb.try_as::<Number>(&rt).is_none());
    assert!(hb.try_as::<String>(&rt).is_none());
    assert!(hb.try_as::<SampleBuf>(&rt).is_some());
    assert!(hb.try_as::<TapDesc>(&rt).is_none());

    assert!(hd.try_as::<Number>(&rt).is_none());
    assert!(hd.try_as::<String>(&rt).is_none());
    assert!(hd.try_as::<SampleBuf>(&rt).is_none());
    assert!(hd.try_as::<TapDesc>(&rt).is_some());

    for h in [hn, hs, hb, hd] {
        assert!(h.try_as::<Type>(&rt).is_some());
    }
    n.release(&mut rt);
    s.release(&mut rt);
    b.release(&mut rt);
    d.release(&mut rt);
    for h in [hn, hs, hb, hd] {
        assert!(h.try_as::<Type>(&rt).is_none());
        assert!(h.try_as::<Number>(&rt).is_none());
    }
}

#[test]
fn narrowing_gives_a_view_of_the_same_object() {
    let mut rt = Runtime::new();
    let n = Number::from_i64(&mut rt, 8);
    let handle: Type = *n.as_type_ref();
    let view = handle.try_as_number(&rt).unwrap();
    assert_eq!(*view.as_type_ref(), handle);
    let second = view.retained(&mut rt);
    assert_eq!(rt.retain_count(&handle), 2);
    second.release(&mut rt);
    n.release(&mut rt);
}
