use cidre::core_audio::TapDesc;
use cidre::core_audio::TapMuteBehavior;
use cidre::foreign::Runtime;
use cidre::ns::Uuid;

#[test]
fn tap_description_basics() {
    let mut rt = Runtime::new();
    let _ = TapDesc::new(&mut rt);
    let tap = TapDesc::with_stereo_mixdown_of_processes(&mut rt, &[]);
    let name = tap.name(&rt);
    println!("{name:?}");
    tap.set_name(&mut rt, Some("hello"));
    tap.set_name(&mut rt, None);
    let uuid = tap.uuid(&rt);
    println!("{uuid:?}");
}

#[test]
fn a_new_description_has_nothing_set() {
    let mut rt = Runtime::new();
    let tap = TapDesc::new(&mut rt);
    assert_eq!(tap.name(&rt), None);
    assert_eq!(tap.processes(&rt), Vec::<i64>::new());
    assert_eq!(tap.bundle_ids(&rt), Vec::<String>::new());
    assert!(!tap.is_mono(&rt));
    assert!(!tap.is_exclusive(&rt));
    assert!(!tap.is_mixdown(&rt));
    assert!(!tap.is_private(&rt));
    assert!(!tap.is_process_restore_enabled(&rt));
    assert_eq!(tap.mute_behavior(&rt), TapMuteBehavior::Unmuted);
    assert_eq!(tap.device_uid(&rt), None);
    assert_eq!(tap.stream(&rt), None);
    tap.release(&mut rt);
}

#[test]
fn alloc_then_init_keeps_the_one_count() {
    let mut rt = Runtime::new();
    let allocated = TapDesc::allocate(&mut rt);
    let tap = allocated.init(&mut rt);
    assert_eq!(rt.retain_count(&tap), 1);
    tap.release(&mut rt);
    assert_eq!(rt.next_addr(), 2);
}

#[test]
fn stereo_mixdown_of_processes() {
    let mut rt = Runtime::new();
    let tap = TapDesc::with_stereo_mixdown_of_processes(&mut rt, &[10, 20]);
    assert_eq!(tap.processes(&rt), vec![10, 20]);
    assert!(!tap.is_mono(&rt));
    assert!(!tap.is_exclusive(&rt));
    assert!(tap.is_mixdown(&rt));
    assert_eq!(tap.device_uid(&rt), None);
    assert_eq!(tap.stream(&rt), None);
    tap.release(&mut rt);
}

#[test]
fn stereo_global_tap_excluding_processes() {
    let mut rt = Runtime::new();
    let tap = TapDesc::with_stereo_global_tap_excluding_processes(&mut rt, &[5]);
    assert_eq!(tap.processes(&rt), vec![5]);
    assert!(!tap.is_mono(&rt));
    assert!(tap.is_exclusive(&rt));
    assert!(tap.is_mixdown(&rt));
    tap.release(&mut rt);
}

#[test]
fn mono_mixdown_of_processes() {
    let mut rt = Runtime::new();
    let tap = TapDesc::with_mono_mixdown_of_processes(&mut rt, &[1, 2, 3]);
    assert_eq!(tap.processes(&rt), vec![1, 2, 3]);
    assert!(tap.is_mono(&rt));
    assert!(!tap.is_exclusive(&rt));
    assert!(tap.is_mixdown(&rt));
    tap.release(&mut rt);
}

#[test]
fn mono_global_tap_excluding_processes() {
    let mut rt = Runtime::new();
    let tap = TapDesc::with_mono_global_tap_excluding_processes(&mut rt, &[]);
    assert_eq!(tap.processes(&rt), Vec::<i64>::new());
    assert!(tap.is_mono(&rt));
    assert!(tap.is_exclusive(&rt));
    assert!(tap.is_mixdown(&rt));
    tap.release(&mut rt);
}

#[test]
fn processes_and_device() {
    let mut rt = Runtime::new();
    let tap = TapDesc::with_processes_and_device(&mut rt, &[77], "BuiltInSpeaker", 2);
    assert_eq!(tap.processes(&rt), vec![77]);
    assert_eq!(tap.device_uid(&rt), Some("BuiltInSpeaker".to_string()));
    assert_eq!(tap.stream(&rt), Some(2));
    assert!(!tap.is_mono(&rt));
    assert!(!tap.is_exclusive(&rt));
    assert!(!tap.is_mixdown(&rt));
    tap.release(&mut rt);
}

#[test]
fn excluding_processes_and_device() {
    let mut rt = Runtime::new();
    let tap = TapDesc::allocate(&mut rt).init_excluding_processes_and_device(
        &mut rt,
        &[1, 2],
        "usb",
        0,
    );
    assert_eq!(tap.processes(&rt), vec![1, 2]);
    assert_eq!(tap.device_uid(&rt), Some("usb".to_string()));
    assert_eq!(tap.stream(&rt), Some(0));
    assert!(tap.is_exclusive(&rt));
    assert!(!tap.is_mixdown(&rt));
    tap.release(&mut rt);
}

#[test]
fn each_initialiser_on_an_allocated_description() {
    let mut rt = Runtime::new();
    let a = TapDesc::allocate(&mut rt).init_stereo_mixdown_of_processes(&mut rt, &[1]);
    let b = TapDesc::allocate(&mut rt).init_stereo_global_tap_but_exclude_processes(&mut rt, &[2]);
    let c = TapDesc::allocate(&mut rt).init_mono_mixdown_of_processes(&mut rt, &[3]);
    let d = TapDesc::allocate(&mut rt).init_mono_global_tap_but_exclude_processes(&mut rt, &[4]);
    let e = TapDesc::allocate(&mut rt).init_with_processes_and_device(&mut rt, &[5], "dev", 1);
    assert_eq!(
        (a.is_mono(&rt), a.is_exclusive(&rt), a.is_mixdown(&rt)),
        (false, false, true)
    );
    assert_eq!(
        (b.is_mono(&rt), b.is_exclusive(&rt), b.is_mixdown(&rt)),
        (false, true, true)
    );
    assert_eq!(
        (c.is_mono(&rt), c.is_exclusive(&rt), c.is_mixdown(&rt)),
        (true, false, true)
    );
    assert_eq!(
        (d.is_mono(&rt), d.is_exclusive(&rt), d.is_mixdown(&rt)),
        (true, true, true)
    );
    assert_eq!(
        (e.is_mono(&rt), e.is_exclusive(&rt), e.is_mixdown(&rt)),
        (false, false, false)
    );
    assert_eq!(e.stream(&rt), Some(1));
    for tap in [a, b, c, d, e] {
        tap.release(&mut rt);
    }
}

#[test]
fn setters_change_one_field_each() {
    let mut rt = Runtime::new();
    let tap = TapDesc::with_stereo_mixdown_of_processes(&mut rt, &[1]);

    tap.set_name(&mut rt, Some("hello"));
    assert_eq!(tap.name(&rt), Some("hello".to_string()));
    assert_eq!(tap.processes(&rt), vec![1]);
    assert!(tap.is_mixdown(&rt));

    tap.set_processes(&mut rt, &[4, 5, 6]);
    assert_eq!(tap.processes(&rt), vec![4, 5, 6]);
    assert_eq!(tap.name(&rt), Some("hello".to_string()));

    tap.set_bundle_ids(&mut rt, &vec!["com.example.a".to_string(), "com.example.b".to_string()]);
    assert_eq!(
        tap.bundle_ids(&rt),
        vec!["com.example.a".to_string(), "com.example.b".to_string()]
    );

    tap.set_mono(&mut rt, true);
    assert!(tap.is_mono(&rt));
    assert!(!tap.is_exclusive(&rt));

    tap.set_exclusive(&mut rt, true);
    assert!(tap.is_exclusive(&rt));

    tap.set_mixdown(&mut rt, false);
    assert!(!tap.is_mixdown(&rt));
    assert!(tap.is_mono(&rt));

    tap.set_private(&mut rt, true);
    assert!(tap.is_private(&rt));

    tap.set_process_restore_enabled(&mut rt, true);
    assert!(tap.is_process_restore_enabled(&rt));

    tap.set_mute_behavior(&mut rt, TapMuteBehavior::MuttedWhenTapped);
    assert_eq!(tap.mute_behavior(&rt), TapMuteBehavior::MuttedWhenTapped);

    tap.set_device_uid(&mut rt, Some("uid"));
    assert_eq!(tap.device_uid(&rt), Some("uid".to_string()));
    tap.set_device_uid(&mut rt, None);
    assert_eq!(tap.device_uid(&rt), None);

    tap.set_stream(&mut rt, Some(3));
    assert_eq!(tap.stream(&rt), Some(3));
    tap.set_stream(&mut rt, None);
    assert_eq!(tap.stream(&rt), None);

    tap.set_name(&mut rt, None);
    assert_eq!(tap.name(&rt), None);
    tap.release(&mut rt);
}

#[test]
fn every_description_gets_an_identifier_of_its_own() {
    let mut rt = Runtime::new();
    let a = TapDesc::new(&mut rt);
    let b = TapDesc::new(&mut rt);
    assert_ne!(a.uuid(&rt), b.uuid(&rt));
    assert_eq!(a.uuid(&rt), Uuid { bits: 1 });
    assert_eq!(b.uuid(&rt), Uuid { bits: 2 });
    let id = Uuid { bits: 0x1234_5678_9abc_def0_1234_5678_9abc_def0 };
    a.set_uuid(&mut rt, Some(&id));
    assert_eq!(a.uuid(&rt), id);
    a.set_uuid(&mut rt, None);
    assert_eq!(a.uuid(&rt), Uuid::nil());
    a.release(&mut rt);
    b.release(&mut rt);
}

#[test]
fn two_owners_see_one_description() {
    let mut rt = Runtime::new();
    let a = TapDesc::new(&mut rt);
    let b = a.retained(&mut rt);
    a.set_private(&mut rt, true);
    assert!(b.is_private(&rt));
    a.release(&mut rt);
    assert!(b.is_private(&rt));
    b.set_private(&mut rt, false);
    assert!(!b.is_private(&rt));
    b.release(&mut rt);
}

#[test]
fn mute_behavior_numbers() {
    assert_eq!(TapMuteBehavior::Unmuted.raw(), 0);
    assert_eq!(TapMuteBehavior::Muted.raw(), 1);
    assert_eq!(TapMuteBehavior::MuttedWhenTapped.raw(), 2);
    assert_eq!(TapMuteBehavior::from_raw(0), Some(TapMuteBehavior::Unmuted));
    assert_eq!(TapMuteBehavior::from_raw(1), Some(TapMuteBehavior::Muted));
    assert_eq!(TapMuteBehavior::from_raw(2), Some(TapMuteBehavior::MuttedWhenTapped));
    assert_eq!(TapMuteBehavior::from_raw(3), None);
    assert_eq!(TapMuteBehavior::from_raw(-1), None);
    assert_eq!(TapMuteBehavior::default(), TapMuteBehavior::Unmuted);
}
