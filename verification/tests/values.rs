use cidre::cat::bufs_in;
use cidre::cat::size_of_bufs;
use cidre::cat::AudioBufListN;
use cidre::cat::Buf;
use cidre::cat::BufList;
use cidre::cf::Allocator;
use cidre::cf::Dictionary;
use cidre::cf::Plist;
use cidre::os::result_unchecked;
use cidre::os::Error;
use cidre::os::Status;

#[test]
fn status_zero_is_success_and_nothing_else_is() {
    assert_eq!(Status(0).result(), Ok(()));
    assert_eq!(Status(-12730).result(), Err(Error(-12730)));
    assert_eq!(Status(1).result(), Err(Error(1)));
    assert!(Status(0).is_ok());
    assert!(!Status(0).is_err());
    assert!(Status(-1).is_err());
    assert!(!Status(-1).is_ok());
    assert_eq!(Error(-5).status(), Status(-5));
    assert_eq!(cidre::os::NO_ERR, 0);
}

#[test]
fn result_of_a_creation_call() {
    assert_eq!(result_unchecked(Ok(()), Some(5)), Ok(5));
    assert_eq!(result_unchecked(Err(Error(-3)), Some(5)), Err(Error(-3)));
    assert_eq!(result_unchecked::<u8>(Err(Error(-3)), None), Err(Error(-3)));
}

#[test]
fn allocators() {
    assert!(Allocator::gives_memory(None));
    assert!(Allocator::gives_memory(Some(&Allocator::default())));
    assert!(!Allocator::gives_memory(Some(&Allocator::null())));
}

#[test]
fn dictionary_insert_get_replace() {
    let mut d = Dictionary::new();
    assert!(d.is_empty());
    assert_eq!(d.len(), 0);
    assert!(!d.contains_key("a"));
    assert!(d.get("a").is_none());

    d.insert("a", Plist::Number(1));
    d.insert("b", Plist::Boolean(false));
    assert_eq!(d.len(), 2);
    assert!(!d.is_empty());
    assert!(d.contains_key("a"));
    assert!(d.contains_key("b"));
    assert!(!d.contains_key("c"));
    assert!(matches!(d.get("a"), Some(Plist::Number(1))));
    assert!(d.get("b").unwrap().is_false());
    assert!(!d.get("b").unwrap().is_true());

    d.insert("a", Plist::String("one".to_string()));
    assert_eq!(d.len(), 2);
    match d.get("a") {
        Some(Plist::String(s)) => assert_eq!(s, "one"),
        other => panic!("unexpected value {other:?}"),
    }
    assert!(d.get("b").unwrap().is_false());

    let copy = d.duplicate();
    d.insert("b", Plist::Boolean(true));
    assert!(copy.get("b").unwrap().is_false());
    assert!(d.get("b").unwrap().is_true());
    assert_eq!(copy.len(), 2);
}

#[test]
fn plist_values() {
    assert!(Plist::Boolean(false).is_false());
    assert!(!Plist::Boolean(true).is_false());
    assert!(!Plist::Number(0).is_false());
    assert!(!Plist::String(std::string::String::new()).is_false());
    assert!(Plist::Boolean(true).is_true());
    assert!(!Plist::Number(1).is_true());
    assert!(matches!(Plist::Number(4).duplicate(), Plist::Number(4)));
}

#[test]
fn sizes_of_buffer_lists() {
    assert_eq!(size_of_bufs(0), Some(8));
    assert_eq!(size_of_bufs(1), Some(24));
    assert_eq!(size_of_bufs(3), Some(56));
    assert_eq!(size_of_bufs(usize::MAX), None);
    assert_eq!(size_of_bufs(usize::MAX / 16), Some(usize::MAX - 7));
    assert_eq!(size_of_bufs(usize::MAX / 16 + 1), None);
    assert_eq!(bufs_in(0), 0);
    assert_eq!(bufs_in(7), 0);
    assert_eq!(bufs_in(8), 0);
    assert_eq!(bufs_in(23), 0);
    assert_eq!(bufs_in(24), 1);
    assert_eq!(bufs_in(56), 3);
    assert_eq!(bufs_in(57), 3);
}

#[test]
fn buffer_lists_keep_to_their_room() {
    let mut list = AudioBufListN::new();
    assert!(!list.fill(vec![Buf::empty()]));
    assert_eq!(list.buffers().len(), 0);
    list.resize(24);
    assert_eq!(list.room(), 1);
    assert!(list.fill(vec![Buf { number_channels: 1, data: vec![9] }]));
    assert_eq!(list.buffers()[0].data, vec![9]);
    assert!(!list.fill(vec![Buf::empty(), Buf::empty()]));
    assert_eq!(list.buffers().len(), 1);
    list.resize(8);
    assert_eq!(list.room(), 0);
    assert_eq!(list.buffers().len(), 0);

    assert!(BufList::<1>::with_buffers(vec![Buf::empty(), Buf::empty()]).is_none());
    let fixed = BufList::<2>::with_buffers(vec![Buf::empty(), Buf::empty()]).unwrap();
    assert_eq!(fixed.number_buffers(), 2);
    assert_eq!(BufList::<4>::new().number_buffers(), 0);
}
