use cidre::arc::R;
use cidre::cat::AudioBufListN;
use cidre::cf::Allocator;
use cidre::cf::Plist;
use cidre::cf::Type;
use cidre::cm::sample_buffer::attach_keys;
use cidre::cm::sample_buffer::buf_attach_keys;
use cidre::cm::sample_buffer::err;
use cidre::cm::sample_buffer::Flags;
use cidre::cm::sample_buffer::AUDIO_BUFFER_LIST_ASSURE_16_BYTE_ALIGNMENT;
use cidre::cm::AudioFormat;
use cidre::cm::BlockBuf;
use cidre::cm::FormatDesc;
use cidre::cm::MediaType;
use cidre::cm::SampleBuf;
use cidre::cm::SampleBufMakeDataReadyCb;
use cidre::cm::SampleTimingInfo;
use cidre::cm::Time;
use cidre::cv::ImageBuf;
use cidre::cv::PixelFormat;
use cidre::foreign::Runtime;
use cidre::os::Error;
use cidre::os::Status;

#[test]
fn sample_buffer_basics() {
    let mut rt = Runtime::new();
    let image_buf = ImageBuf::new(1920, 1080, PixelFormat::_32_BGRA);
    let format_desc = FormatDesc::with_image_buf(&image_buf).unwrap();
    let timing_info = SampleTimingInfo::invalid();
    let sample_buf =
        SampleBuf::with_image_buf(&mut rt, &image_buf, true, None, &format_desc, &timing_info)
            .unwrap();
    assert!(sample_buf.data_is_ready(&rt));

    let attaches = sample_buf.attaches_mut(&mut rt, true, 0).unwrap();
    attaches.insert(attach_keys::do_not_display(), Plist::Number(1));

    assert!(sample_buf.is_key_frame(&rt));

    let err = sample_buf.audio_stream_packet_descs(&rt).expect_err("It is video format");
    assert_eq!(err, Error(err::INVALID_MEDIA_TYPE_FOR_OPERATION));

    match sample_buf.audio_stream_packet_descs(&rt) {
        Err(Error(err::INVALID_MEDIA_TYPE_FOR_OPERATION)) => {}
        _ => {
            panic!("should be error")
        }
    }
    sample_buf.release(&mut rt);
}

#[test]
fn a_buffer_made_ready_is_ready() {
    let mut rt = Runtime::new();
    let buf = SampleBuf::new(&mut rt, None, true, None).unwrap();
    assert!(buf.data_is_ready(&rt));
    assert!(buf.is_valid(&rt));
    assert_eq!(buf.num_samples(&rt), 0);
    assert_eq!(buf.format_desc(&rt), None);
    assert_eq!(buf.image_buf(&rt), None);
    assert!(buf.data_buf(&rt).is_none());
    buf.release(&mut rt);
}

#[test]
fn data_not_ready_until_marked_ready() {
    let mut rt = Runtime::new();
    let buf = SampleBuf::new(&mut rt, None, false, None).unwrap();
    assert!(!buf.data_is_ready(&rt));
    buf.set_data_ready(&mut rt);
    assert!(buf.data_is_ready(&rt));
    buf.release(&mut rt);
}

#[test]
fn make_data_ready_runs_the_routine_of_the_maker() {
    let mut rt = Runtime::new();
    let works = SampleBufMakeDataReadyCb { status: Status(0) };
    let mut out: Option<R<SampleBuf>> = None;
    SampleBuf::create_in(&mut rt, None, None, false, Some(&works), None, 0, &[], &[], &mut out)
        .unwrap();
    let buf = out.unwrap();
    assert!(!buf.data_is_ready(&rt));
    assert_eq!(buf.make_data_ready(&mut rt), Ok(()));
    assert!(buf.data_is_ready(&rt));
    assert_eq!(buf.make_data_ready(&mut rt), Ok(()));
    assert!(buf.data_is_ready(&rt));
    buf.release(&mut rt);
}

#[test]
fn make_data_ready_fails_without_a_routine_or_with_one_that_fails() {
    let mut rt = Runtime::new();
    let none = SampleBuf::new(&mut rt, None, false, None).unwrap();
    assert_eq!(none.make_data_ready(&mut rt), Err(Error(err::BUFFER_NOT_READY)));
    assert!(!none.data_is_ready(&rt));

    let fails = SampleBufMakeDataReadyCb { status: Status(-1) };
    let mut out: Option<R<SampleBuf>> = None;
    SampleBuf::create_in(&mut rt, None, None, false, Some(&fails), None, 0, &[], &[], &mut out)
        .unwrap();
    let failing = out.unwrap();
    assert_eq!(failing.make_data_ready(&mut rt), Err(Error(err::BUFFER_NOT_READY)));
    assert!(!failing.data_is_ready(&rt));
    none.release(&mut rt);
    failing.release(&mut rt);
}

#[test]
fn a_failed_creation_makes_nothing_and_owns_nothing() {
    let mut rt = Runtime::new();
    let keep = SampleBuf::new(&mut rt, None, true, None).unwrap();
    let next = rt.next_addr();
    let timing = [SampleTimingInfo::invalid(), SampleTimingInfo::invalid()];

    let mut out: Option<R<SampleBuf>> = None;
    let res = SampleBuf::create_in(&mut rt, None, None, true, None, None, 3, &timing, &[], &mut out);
    assert_eq!(res, Err(Error(err::INVALID_ENTRY_COUNT)));
    assert!(out.is_none());
    assert_eq!(rt.next_addr(), next);

    let res =
        SampleBuf::create_in(&mut rt, None, None, true, None, None, 3, &[], &[1, 2], &mut out);
    assert_eq!(res, Err(Error(err::INVALID_ENTRY_COUNT)));
    assert!(out.is_none());

    let res = SampleBuf::create_in(&mut rt, None, None, true, None, None, -1, &[], &[], &mut out);
    assert_eq!(res, Err(Error(err::INVALID_ENTRY_COUNT)));
    assert!(out.is_none());

    let null = Allocator::null();
    let res =
        SampleBuf::create_in(&mut rt, Some(&null), None, true, None, None, 0, &[], &[], &mut out);
    assert_eq!(res, Err(Error(err::ALLOC_FAILED)));
    assert!(out.is_none());
    assert_eq!(rt.next_addr(), next);
    assert_eq!(rt.retain_count(&keep), 1);

    let default = Allocator::default();
    let res = SampleBuf::create_in(
        &mut rt,
        Some(&default),
        None,
        true,
        None,
        None,
        0,
        &[],
        &[],
        &mut out,
    );
    assert_eq!(res, Ok(()));
    let made = out.unwrap();
    assert_eq!(made.as_type_ptr(), next);
    assert_eq!(rt.retain_count(&made), 1);
    made.release(&mut rt);
    keep.release(&mut rt);
}

#[test]
fn entry_counts_of_none_one_or_all_are_taken() {
    let mut rt = Runtime::new();
    let t = SampleTimingInfo {
        duration: Time::new(1, 30),
        pts: Time::new(0, 30),
        dts: Time::invalid(),
    };
    for (timing, sizes) in [
        (vec![], vec![]),
        (vec![t], vec![10usize]),
        (vec![t, t, t], vec![1usize, 2, 3]),
        (vec![t], vec![1usize, 2, 3]),
        (vec![t, t, t], vec![]),
    ] {
        let mut out: Option<R<SampleBuf>> = None;
        let res =
            SampleBuf::create_in(&mut rt, None, None, true, None, None, 3, &timing, &sizes, &mut out);
        assert_eq!(res, Ok(()));
        let buf = out.unwrap();
        assert_eq!(buf.num_samples(&rt), 3);
        buf.release(&mut rt);
    }
}

#[test]
fn image_creation_asks_for_a_matching_format() {
    let mut rt = Runtime::new();
    let image = ImageBuf::new(640, 480, PixelFormat::_420V);
    let other = ImageBuf::new(640, 481, PixelFormat::_420V);
    let timing = SampleTimingInfo::invalid();
    let wrong = FormatDesc::with_image_buf(&other).unwrap();
    let res = SampleBuf::with_image_buf(&mut rt, &image, true, None, &wrong, &timing);
    assert_eq!(res.err(), Some(Error(err::INVALID_MEDIA_FORMAT)));
    let audio = FormatDesc::with_audio_format(AudioFormat {
        channels: 2,
        bytes_per_sample: 2,
        interleaved: true,
        pcm: true,
    });
    let res = SampleBuf::with_image_buf(&mut rt, &image, true, None, &audio, &timing);
    assert_eq!(res.err(), Some(Error(err::INVALID_MEDIA_FORMAT)));
    assert_eq!(rt.next_addr(), 1);

    let right = FormatDesc::with_image_buf(&image).unwrap();
    let null = Allocator::null();
    let res =
        SampleBuf::with_image_buf_in(&mut rt, Some(&null), &image, true, None, &right, &timing);
    assert_eq!(res.err(), Some(Error(err::ALLOC_FAILED)));
    assert_eq!(rt.next_addr(), 1);

    let buf = SampleBuf::with_image_buf_in(&mut rt, None, &image, false, None, &right, &timing)
        .unwrap();
    assert_eq!(buf.image_buf(&rt), Some(image));
    assert_eq!(buf.format_desc(&rt), Some(right));
    assert_eq!(right.media_type(), MediaType::Video);
    assert_eq!(buf.num_samples(&rt), 1);
    assert!(!buf.data_is_ready(&rt));
    assert!(buf.data_buf(&rt).is_none());
    buf.release(&mut rt);
}

#[test]
fn a_buffer_takes_its_data_once() {
    let mut rt = Runtime::new();
    let buf = SampleBuf::new(&mut rt, None, false, None).unwrap();
    let data = BlockBuf::with_bytes(&mut rt, &[1, 2, 3]);
    let block: BlockBuf = *data;
    assert_eq!(data.data_len(&rt), 3);
    assert_eq!(data.data(&rt), vec![1, 2, 3]);
    assert_eq!(buf.set_data_buf(&mut rt, &data), Ok(()));
    assert_eq!(buf.data_buf(&rt).unwrap().as_type_ptr(), block.as_type_ptr());
    assert_eq!(buf.data_buf(&rt).unwrap().data(&rt), vec![1, 2, 3]);
    assert_eq!(rt.retain_count(&block), 2);
    let more = BlockBuf::with_bytes(&mut rt, &[4]);
    assert_eq!(buf.set_data_buf(&mut rt, &more), Err(Error(err::ALREADY_HAS_DATA_BUFFER)));
    assert_eq!(rt.retain_count(&more), 1);
    assert_eq!(buf.data_buf(&rt).unwrap().data(&rt), vec![1, 2, 3]);
    data.release(&mut rt);
    assert_eq!(rt.retain_count(&block), 1);
    assert_eq!(buf.data_buf(&rt).unwrap().data(&rt), vec![1, 2, 3]);

    let given = SampleBuf::new(&mut rt, Some(&block), true, None).unwrap();
    assert_eq!(rt.retain_count(&block), 2);
    buf.release(&mut rt);
    assert_eq!(rt.retain_count(&block), 1);
    assert_eq!(given.data_buf(&rt).unwrap().data(&rt), vec![1, 2, 3]);
    given.release(&mut rt);
    assert!(!rt.is_live(&block));
    more.release(&mut rt);
}

#[test]
fn an_invalidated_buffer_reports_that_it_was_invalidated() {
    let mut rt = Runtime::new();
    let buf = SampleBuf::new(&mut rt, None, false, None).unwrap();
    assert!(buf.is_valid(&rt));
    assert_eq!(buf.invalidate(&mut rt), Ok(()));
    assert!(!buf.is_valid(&rt));
    assert_eq!(buf.invalidate(&mut rt), Err(Error(err::INVALIDATED)));
    assert_eq!(buf.make_data_ready(&mut rt), Err(Error(err::INVALIDATED)));
    let data = BlockBuf::with_bytes(&mut rt, &[1]);
    assert_eq!(buf.set_data_buf(&mut rt, &data), Err(Error(err::INVALIDATED)));
    assert_eq!(buf.audio_stream_packet_descs(&rt), Err(Error(err::INVALIDATED)));
    assert_eq!(buf.audio_buf_list::<1>(&mut rt).err(), Some(Error(err::INVALIDATED)));
    data.release(&mut rt);
    buf.release(&mut rt);
}

#[test]
fn sample_sizes() {
    let mut rt = Runtime::new();
    let mut out: Option<R<SampleBuf>> = None;
    SampleBuf::create_in(&mut rt, None, None, true, None, None, 3, &[], &[10, 20, 30], &mut out)
        .unwrap();
    let each = out.take().unwrap();
    assert_eq!(each.sample_size(&rt, 0), 10);
    assert_eq!(each.sample_size(&rt, 1), 20);
    assert_eq!(each.sample_size(&rt, 2), 30);
    assert_eq!(each.sample_size(&rt, 3), 0);
    assert_eq!(each.sample_size(&rt, -1), 0);
    assert_eq!(each.total_sample_size(&rt), 60);

    SampleBuf::create_in(&mut rt, None, None, true, None, None, 4, &[], &[7], &mut out).unwrap();
    let shared = out.take().unwrap();
    assert_eq!(shared.sample_size(&rt, 0), 7);
    assert_eq!(shared.sample_size(&rt, 3), 7);
    assert_eq!(shared.sample_size(&rt, 4), 0);
    assert_eq!(shared.total_sample_size(&rt), 28);

    SampleBuf::create_in(&mut rt, None, None, true, None, None, 4, &[], &[], &mut out).unwrap();
    let none = out.take().unwrap();
    assert_eq!(none.sample_size(&rt, 0), 0);
    assert_eq!(none.total_sample_size(&rt), 0);

    SampleBuf::create_in(
        &mut rt,
        None,
        None,
        true,
        None,
        None,
        2,
        &[],
        &[usize::MAX, 5],
        &mut out,
    )
    .unwrap();
    let huge = out.take().unwrap();
    assert_eq!(huge.total_sample_size(&rt), usize::MAX);

    SampleBuf::create_in(&mut rt, None, None, true, None, None, 3, &[], &[usize::MAX], &mut out)
        .unwrap();
    let huge_each = out.take().unwrap();
    assert_eq!(huge_each.total_sample_size(&rt), usize::MAX);

    for buf in [each, shared, none, huge, huge_each] {
        buf.release(&mut rt);
    }
}

#[test]
fn attachments_are_made_on_demand() {
    let mut rt = Runtime::new();
    let mut out: Option<R<SampleBuf>> = None;
    SampleBuf::create_in(&mut rt, None, None, true, None, None, 2, &[], &[], &mut out).unwrap();
    let buf = out.unwrap();
    assert!(buf.attaches(&mut rt, false).is_none());
    assert!(buf.attaches_mut(&mut rt, false, 0).is_none());
    assert!(buf.attaches(&mut rt, false).is_none());
    {
        let list = buf.attaches(&mut rt, true).unwrap();
        assert_eq!(list.len(), 2);
        assert!(list[0].is_empty());
        assert!(list[1].is_empty());
    }
    assert_eq!(buf.attaches(&mut rt, false).unwrap().len(), 2);
    {
        let second = buf.attaches_mut(&mut rt, false, 1).unwrap();
        second.insert(attach_keys::depends_on_others(), Plist::Boolean(true));
    }
    assert!(buf.attaches_mut(&mut rt, false, 2).is_none());
    assert!(buf.attaches_mut(&mut rt, true, 2).is_none());
    assert_eq!(buf.attaches(&mut rt, false).unwrap().len(), 2);
    let list = buf.attaches(&mut rt, true).unwrap();
    assert!(list[0].is_empty());
    assert_eq!(list[1].len(), 1);
    assert!(list[1].get(attach_keys::depends_on_others()).unwrap().is_true());
    buf.release(&mut rt);

    let empty = SampleBuf::new(&mut rt, None, true, None).unwrap();
    assert_eq!(empty.attaches(&mut rt, true).unwrap().len(), 0);
    assert!(empty.is_key_frame(&rt));
    empty.release(&mut rt);
}

#[test]
fn key_frames() {
    let mut rt = Runtime::new();
    let mut out: Option<R<SampleBuf>> = None;
    SampleBuf::create_in(&mut rt, None, None, true, None, None, 1, &[], &[], &mut out).unwrap();
    let buf = out.unwrap();
    assert!(buf.is_key_frame(&rt));
    assert!(!buf.contains_not_sync(&mut rt));
    assert!(buf.is_key_frame(&rt));

    buf.attaches_mut(&mut rt, true, 0).unwrap().insert(attach_keys::not_sync(), Plist::Boolean(true));
    assert!(!buf.is_key_frame(&rt));
    assert!(buf.contains_not_sync(&mut rt));

    buf.attaches_mut(&mut rt, true, 0)
        .unwrap()
        .insert(attach_keys::not_sync(), Plist::Boolean(false));
    assert!(buf.is_key_frame(&rt));
    assert!(buf.contains_not_sync(&mut rt));

    buf.attaches_mut(&mut rt, true, 0).unwrap().insert(attach_keys::not_sync(), Plist::Number(0));
    assert!(!buf.is_key_frame(&rt));

    buf.attaches_mut(&mut rt, true, 0)
        .unwrap()
        .insert(attach_keys::not_sync(), Plist::String("false".to_string()));
    assert!(!buf.is_key_frame(&rt));
    buf.release(&mut rt);
}

fn audio_buffer(rt: &mut Runtime, format: AudioFormat, bytes: &[u8], ready: bool) -> R<SampleBuf> {
    let desc = FormatDesc::with_audio_format(format);
    let data = BlockBuf::with_bytes(rt, bytes);
    let buf = SampleBuf::new(rt, Some(&data), ready, Some(&desc)).unwrap();
    data.release(rt);
    buf
}

#[test]
fn interleaved_audio_comes_as_one_buffer() {
    let mut rt = Runtime::new();
    let format = AudioFormat { channels: 2, bytes_per_sample: 2, interleaved: true, pcm: true };
    let buf = audio_buffer(&mut rt, format, &[1, 2, 3, 4, 5, 6, 7, 8], true);
    let next = rt.next_addr();
    let kept: BlockBuf = buf.data_buf(&rt).unwrap();
    assert_eq!(rt.retain_count(&kept), 1);
    let both = buf.audio_buf_list::<1>(&mut rt).unwrap();
    assert_eq!(rt.next_addr(), next);
    assert_eq!(both.list().number_buffers(), 1);
    assert_eq!(both.list().buffers()[0].number_channels, 2);
    assert_eq!(both.list().buffers()[0].data, vec![1, 2, 3, 4, 5, 6, 7, 8]);
    assert_eq!(both.list().buffers()[0].data_bytes_size(), 8);
    let block: BlockBuf = *both.block();
    assert_eq!(block.as_type_ptr(), kept.as_type_ptr());
    assert_eq!(block.data(&rt), vec![1, 2, 3, 4, 5, 6, 7, 8]);
    assert_eq!(rt.retain_count(&block), 2);
    assert_eq!(buf.audio_stream_packet_descs(&rt), Ok(None));
    buf.release(&mut rt);
    assert_eq!(rt.retain_count(&block), 1);
    assert_eq!(block.data(&rt), vec![1, 2, 3, 4, 5, 6, 7, 8]);
    both.release(&mut rt);
    assert!(!rt.is_live(&block));
}

#[test]
fn channels_apart_come_as_one_buffer_each() {
    let mut rt = Runtime::new();
    let format = AudioFormat { channels: 2, bytes_per_sample: 2, interleaved: false, pcm: true };
    let buf = audio_buffer(&mut rt, format, &[1, 2, 3, 4, 5, 6, 7, 8, 9], true);
    let mut both = buf.audio_buf_list::<2>(&mut rt).unwrap();
    assert_eq!(both.list().number_buffers(), 2);
    assert_eq!(both.list().buffers()[0].number_channels, 1);
    assert_eq!(both.list().buffers()[0].data, vec![1, 2, 3, 4]);
    assert_eq!(both.list().buffers()[1].number_channels, 1);
    assert_eq!(both.list().buffers()[1].data, vec![5, 6, 7, 8]);
    assert_eq!(both.list_mut().number_buffers(), 2);
    assert_eq!(both.block().data_len(&rt), 9);

    let kept: BlockBuf = buf.data_buf(&rt).unwrap();
    assert_eq!(rt.retain_count(&kept), 2);
    let small = buf.audio_buf_list::<1>(&mut rt);
    assert_eq!(small.err(), Some(Error(err::ARRAY_TOO_SMALL)));
    assert_eq!(rt.retain_count(&kept), 2);
    let flags = Flags(AUDIO_BUFFER_LIST_ASSURE_16_BYTE_ALIGNMENT);
    let large = buf.audio_buf_list_in::<8>(&mut rt, flags, None, None).unwrap();
    assert_eq!(large.list().number_buffers(), 2);
    assert_eq!(large.flags(), flags);
    assert_eq!(both.flags(), Flags(1));
    assert_eq!(large.block().as_type_ptr(), kept.as_type_ptr());
    assert_eq!(rt.retain_count(&kept), 3);
    large.release(&mut rt);
    both.release(&mut rt);
    assert_eq!(rt.retain_count(&kept), 1);
    buf.release(&mut rt);
    assert!(!rt.is_live(&kept));
}

#[test]
fn a_list_is_given_the_room_that_the_audio_needs() {
    let mut rt = Runtime::new();
    let format = AudioFormat { channels: 3, bytes_per_sample: 1, interleaved: false, pcm: true };
    let buf = audio_buffer(&mut rt, format, &[1, 2, 3, 4, 5, 6], true);
    let mut list = AudioBufListN::new();
    assert_eq!(list.room(), 0);
    {
        let both = buf.audio_buf_list_n(&mut rt, &mut list).unwrap();
        assert_eq!(both.list().room(), 3);
        assert_eq!(both.list().buffers().len(), 3);
        assert_eq!(both.list().buffers()[0].data, vec![1, 2]);
        assert_eq!(both.list().buffers()[1].data, vec![3, 4]);
        assert_eq!(both.list().buffers()[2].data, vec![5, 6]);
        let block: BlockBuf = *both.block();
        assert_eq!(block.data(&rt), vec![1, 2, 3, 4, 5, 6]);
        assert_eq!(rt.retain_count(&block), 2);
        both.release(&mut rt);
        assert_eq!(rt.retain_count(&block), 1);
    }
    assert_eq!(list.room(), 3);
    assert_eq!(list.buffers().len(), 3);
    buf.release(&mut rt);
}

#[test]
fn audio_is_handed_out_only_where_there_is_audio_that_is_ready() {
    let mut rt = Runtime::new();
    let format = AudioFormat { channels: 1, bytes_per_sample: 2, interleaved: true, pcm: true };
    let not_ready = audio_buffer(&mut rt, format, &[1, 2], false);
    assert_eq!(not_ready.audio_buf_list::<1>(&mut rt).err(), Some(Error(err::BUFFER_NOT_READY)));
    let mut list = AudioBufListN::new();
    list.resize(8 + 16 * 5);
    assert_eq!(list.room(), 5);
    assert_eq!(
        not_ready.audio_buf_list_n(&mut rt, &mut list).err(),
        Some(Error(err::BUFFER_NOT_READY))
    );
    assert_eq!(list.room(), 5);
    not_ready.set_data_ready(&mut rt);
    not_ready.audio_buf_list::<1>(&mut rt).unwrap().release(&mut rt);

    let desc = FormatDesc::with_audio_format(format);
    let no_data = SampleBuf::new(&mut rt, None, true, Some(&desc)).unwrap();
    assert_eq!(no_data.audio_buf_list::<1>(&mut rt).err(), Some(Error(err::BUFFER_NOT_READY)));

    let no_format = SampleBuf::new(&mut rt, None, true, None).unwrap();
    assert_eq!(
        no_format.audio_buf_list::<1>(&mut rt).err(),
        Some(Error(err::INVALID_MEDIA_TYPE_FOR_OPERATION))
    );
    assert_eq!(
        no_format.audio_stream_packet_descs(&rt),
        Err(Error(err::INVALID_MEDIA_TYPE_FOR_OPERATION))
    );
    let text = FormatDesc::Other { media_type: MediaType::Text };
    let other = SampleBuf::new(&mut rt, None, true, Some(&text)).unwrap();
    assert_eq!(
        other.audio_buf_list_n(&mut rt, &mut list).err(),
        Some(Error(err::INVALID_MEDIA_TYPE_FOR_OPERATION))
    );
    for buf in [not_ready, no_data, no_format, other] {
        buf.release(&mut rt);
    }
}

#[test]
fn two_owners_see_one_buffer() {
    let mut rt = Runtime::new();
    let first = SampleBuf::new(&mut rt, None, false, None).unwrap();
    let second = first.retained(&mut rt);
    let handle: Type = *first.as_type_ref();
    first.set_data_ready(&mut rt);
    assert!(second.data_is_ready(&rt));
    first.release(&mut rt);
    assert!(second.data_is_ready(&rt));
    assert_eq!(rt.retain_count(&handle), 1);
    second.release(&mut rt);
    assert!(!rt.is_live(&handle));
}

#[test]
fn flags() {
    let mut f = Flags::default();
    assert!(f.is_empty());
    let align = Flags(AUDIO_BUFFER_LIST_ASSURE_16_BYTE_ALIGNMENT);
    assert_eq!(align.0, 1);
    assert!(!f.contains(align));
    assert!(!f.any(align));
    f.insert(align);
    assert!(f.contains(align));
    assert!(f.any(Flags(3)));
    assert!(!f.contains(Flags(3)));
    f.insert(Flags(6));
    assert_eq!(f, Flags(7));
    f.remove(Flags(2));
    assert_eq!(f, Flags(5));
    f.set(Flags(8), true);
    assert_eq!(f, Flags(13));
    f.set(Flags(1), false);
    assert_eq!(f, Flags(12));
    assert_eq!(Flags(12) & Flags(10), Flags(8));
    assert_eq!(Flags(12) | Flags(10), Flags(14));
    assert_eq!(Flags(12) ^ Flags(10), Flags(6));
    assert_eq!(!Flags(0), Flags(u32::MAX));
    assert_eq!(Flags::from(5), Flags(5));
}

#[test]
fn timing_info_that_says_nothing() {
    let info = SampleTimingInfo::invalid();
    assert!(!info.duration.is_valid());
    assert!(!info.pts.is_valid());
    assert!(!info.dts.is_valid());
    assert_eq!(info, SampleTimingInfo::default());
    assert_eq!(Time::invalid(), Time::default());
    let t = Time::new(3, 600);
    assert!(t.is_valid());
    assert_eq!((t.value, t.scale, t.flags, t.epoch), (3, 600, 1, 0));
}

#[test]
fn attachment_keys() {
    assert_eq!(attach_keys::not_sync(), "NotSync");
    assert_eq!(attach_keys::partial_sync(), "PartialSync");
    assert_eq!(attach_keys::has_redundant_coding(), "HasRedundantCoding");
    assert_eq!(attach_keys::is_depended_on_by_others(), "IsDependedOnByOthers");
    assert_eq!(attach_keys::depends_on_others(), "DependsOnOthers");
    assert_eq!(attach_keys::earlier_display_times_allowed(), "EarlierDisplayTimesAllowed");
    assert_eq!(attach_keys::display_immediately(), "DisplayImmediately");
    assert_eq!(attach_keys::do_not_display(), "DoNotDisplay");
    assert_eq!(attach_keys::cryptor_subsample_auxiliary_data(), "CryptorSubsampleAuxiliaryData");
    assert_eq!(attach_keys::hdr10plus_per_frame_data(), "HDR10PlusPerFrameData");
    assert_eq!(buf_attach_keys::reset_decoder_before_decoding(), "ResetDecoderBeforeDecoding");
    assert_eq!(buf_attach_keys::drain_after_decoding(), "DrainAfterDecoding");
    assert_eq!(buf_attach_keys::post_notification_when_consumed(), "PostNotificationWhenConsumed");
    assert_eq!(buf_attach_keys::resume_output(), "ResumeOutput");
    assert_eq!(buf_attach_keys::transition_id(), "TransitionID");
    assert_eq!(buf_attach_keys::trim_duration_at_start(), "TrimDurationAtStart");
    assert_eq!(buf_attach_keys::trim_duration_at_end(), "TrimDurationAtEnd");
    assert_eq!(buf_attach_keys::reverse(), "Reverse");
    assert_eq!(
        buf_attach_keys::fill_discontinuities_with_silence(),
        "FillDiscontinuitiesWithSilence"
    );
    assert_eq!(buf_attach_keys::empty_media(), "EmptyMedia");
    assert_eq!(buf_attach_keys::permanent_empty_media(), "PermanentEmptyMedia");
    assert_eq!(buf_attach_keys::display_empty_media_immediately(), "DisplayEmptyMediaImmediately");
    assert_eq!(buf_attach_keys::ends_previous_sample_duration(), "EndsPreviousSampleDuration");
    assert_eq!(buf_attach_keys::sample_reference_url(), "SampleReferenceURL");
    assert_eq!(buf_attach_keys::sample_reference_byte_offset(), "SampleReferenceByteOffset");
    assert_eq!(buf_attach_keys::dropped_frame_reason(), "DroppedFrameReason");
    assert_eq!(buf_attach_keys::dropped_frame_reason_info(), "DroppedFrameReasonInfo");
    assert_eq!(
        buf_attach_keys::still_image_lens_stabilization_info(),
        "StillImageLensStabilizationInfo"
    );
    assert_eq!(buf_attach_keys::camera_intrinsic_matrix(), "CameraIntrinsicMatrix");
    assert_eq!(buf_attach_keys::force_key_frame(), "ForceKeyFrame");
}

#[test]
fn error_codes() {
    assert_eq!(err::ALLOC_FAILED, -12730);
    assert_eq!(err::REQUIRED_PARAMETER_MISSING, -12731);
    assert_eq!(err::ALREADY_HAS_DATA_BUFFER, -12732);
    assert_eq!(err::BUFFER_NOT_READY, -12733);
    assert_eq!(err::SAMPLE_INDEX_OUT_OF_RANGE, -12734);
    assert_eq!(err::BUFFER_HAS_NO_SAMPLE_SIZES, -12735);
    assert_eq!(err::BUFFER_HAS_NO_SAMPLE_TIMING_INFO, -12736);
    assert_eq!(err::ARRAY_TOO_SMALL, -12737);
    assert_eq!(err::INVALID_ENTRY_COUNT, -12738);
    assert_eq!(err::CANNOT_SUBDIVIDE, -12739);
    assert_eq!(err::SAMPLE_TIMING_INFO_INVALID, -12740);
    assert_eq!(err::INVALID_MEDIA_TYPE_FOR_OPERATION, -12741);
    assert_eq!(err::INVALID_SAMPLE_DATA, -12742);
    assert_eq!(err::INVALID_MEDIA_FORMAT, -12743);
    assert_eq!(err::INVALIDATED, -12744);
    assert_eq!(err::DATA_FAILED, -16750);
    assert_eq!(err::DATA_CANCELED, -16751);
}

#[test]
fn the_image_of_a_buffer_can_be_changed_in_place() {
    let mut rt = Runtime::new();
    let image = ImageBuf::new(4, 2, PixelFormat::_32_ARGB);
    let desc = FormatDesc::with_image_buf(&image).unwrap();
    let timing = SampleTimingInfo::invalid();
    let buf = SampleBuf::with_image_buf(&mut rt, &image, true, None, &desc, &timing).unwrap();
    {
        let inside = buf.image_buf_mut(&mut rt).unwrap();
        assert_eq!(*inside, image);
        inside.width = 8;
    }
    assert_eq!(buf.image_buf(&rt), Some(ImageBuf::new(8, 2, PixelFormat::_32_ARGB)));
    buf.release(&mut rt);
    let plain = SampleBuf::new(&mut rt, None, true, None).unwrap();
    assert!(plain.image_buf_mut(&mut rt).is_none());
    plain.release(&mut rt);
}

fn list_of<const N: usize>(sizes: &[(u32, usize)]) -> cidre::cat::BufList<N> {
    let bufs = sizes
        .iter()
        .map(|(channels, len)| cidre::cat::Buf { number_channels: *channels, data: vec![0xee; *len] })
        .collect();
    cidre::cat::BufList::<N>::with_buffers(bufs).unwrap()
}

#[test]
fn pcm_frames_of_interleaved_audio_are_copied_to_the_front() {
    let mut rt = Runtime::new();
    let format = AudioFormat { channels: 2, bytes_per_sample: 1, interleaved: true, pcm: true };
    let buf = audio_buffer(&mut rt, format, &[1, 2, 3, 4, 5, 6, 7, 8], true);
    let mut list = list_of::<1>(&[(2, 6)]);
    assert_eq!(buf.copy_pcm_data_into_audio_buf_list(&rt, 1, 2, &mut list), Ok(()));
    assert_eq!(list.buffers()[0].data, vec![3, 4, 5, 6, 0xee, 0xee]);
    assert_eq!(list.buffers()[0].number_channels, 2);
    assert_eq!(buf.copy_pcm_data_into_audio_buf_list(&rt, 0, 0, &mut list), Ok(()));
    assert_eq!(list.buffers()[0].data, vec![3, 4, 5, 6, 0xee, 0xee]);
    assert_eq!(buf.copy_pcm_data_into_audio_buf_list(&rt, 3, 1, &mut list), Ok(()));
    assert_eq!(list.buffers()[0].data, vec![7, 8, 5, 6, 0xee, 0xee]);
    buf.release(&mut rt);
}

#[test]
fn pcm_frames_of_channels_apart_are_copied_channel_by_channel() {
    let mut rt = Runtime::new();
    let format = AudioFormat { channels: 2, bytes_per_sample: 2, interleaved: false, pcm: true };
    let buf = audio_buffer(&mut rt, format, &[1, 2, 3, 4, 5, 6, 11, 12, 13, 14, 15, 16], true);
    let mut list = list_of::<2>(&[(1, 4), (1, 5)]);
    assert_eq!(buf.copy_pcm_data_into_audio_buf_list(&rt, 1, 2, &mut list), Ok(()));
    assert_eq!(list.buffers()[0].data, vec![3, 4, 5, 6]);
    assert_eq!(list.buffers()[1].data, vec![13, 14, 15, 16, 0xee]);
    buf.release(&mut rt);
}

#[test]
fn pcm_copy_failures_leave_the_list_as_it_was() {
    let mut rt = Runtime::new();
    let format = AudioFormat { channels: 2, bytes_per_sample: 1, interleaved: true, pcm: true };
    let buf = audio_buffer(&mut rt, format, &[1, 2, 3, 4, 5, 6, 7], true);
    let mut list = list_of::<2>(&[(2, 4)]);

    for (offset, frames) in [(-1, 1), (0, -1), (0, 4), (3, 1), (4, 0), (i32::MAX, i32::MAX)] {
        assert_eq!(
            buf.copy_pcm_data_into_audio_buf_list(&rt, offset, frames, &mut list),
            Err(Error(err::SAMPLE_INDEX_OUT_OF_RANGE))
        );
    }
    assert_eq!(
        buf.copy_pcm_data_into_audio_buf_list(&rt, 0, 3, &mut list),
        Err(Error(err::ARRAY_TOO_SMALL))
    );
    assert_eq!(list.buffers()[0].data, vec![0xee; 4]);

    let mut two = list_of::<2>(&[(2, 4), (2, 4)]);
    assert_eq!(
        buf.copy_pcm_data_into_audio_buf_list(&rt, 0, 1, &mut two),
        Err(Error(err::INVALID_MEDIA_FORMAT))
    );
    let mut mono = list_of::<2>(&[(1, 4)]);
    assert_eq!(
        buf.copy_pcm_data_into_audio_buf_list(&rt, 0, 1, &mut mono),
        Err(Error(err::INVALID_MEDIA_FORMAT))
    );
    let mut none = list_of::<2>(&[]);
    assert_eq!(
        buf.copy_pcm_data_into_audio_buf_list(&rt, 0, 0, &mut none),
        Err(Error(err::INVALID_MEDIA_FORMAT))
    );

    let packed = AudioFormat { pcm: false, ..format };
    let not_pcm = audio_buffer(&mut rt, packed, &[1, 2], true);
    assert_eq!(
        not_pcm.copy_pcm_data_into_audio_buf_list(&rt, 0, 1, &mut list),
        Err(Error(err::INVALID_MEDIA_FORMAT))
    );
    let waiting = audio_buffer(&mut rt, format, &[1, 2], false);
    assert_eq!(
        waiting.copy_pcm_data_into_audio_buf_list(&rt, 0, 1, &mut list),
        Err(Error(err::BUFFER_NOT_READY))
    );
    let video = SampleBuf::new(&mut rt, None, true, None).unwrap();
    assert_eq!(
        video.copy_pcm_data_into_audio_buf_list(&rt, 0, 0, &mut list),
        Err(Error(err::INVALID_MEDIA_TYPE_FOR_OPERATION))
    );
    video.invalidate(&mut rt).unwrap();
    assert_eq!(
        video.copy_pcm_data_into_audio_buf_list(&rt, 0, 0, &mut list),
        Err(Error(err::INVALIDATED))
    );
    assert_eq!(list.buffers()[0].data, vec![0xee; 4]);
    for b in [buf, not_pcm, waiting, video] {
        b.release(&mut rt);
    }
}

#[test]
fn audio_without_channels_has_no_frames() {
    let mut rt = Runtime::new();
    let format = AudioFormat { channels: 0, bytes_per_sample: 2, interleaved: false, pcm: true };
    let buf = audio_buffer(&mut rt, format, &[1, 2, 3], true);
    let mut list = list_of::<1>(&[]);
    assert_eq!(buf.copy_pcm_data_into_audio_buf_list(&rt, 0, 0, &mut list), Ok(()));
    assert_eq!(
        buf.copy_pcm_data_into_audio_buf_list(&rt, 0, 1, &mut list),
        Err(Error(err::SAMPLE_INDEX_OUT_OF_RANGE))
    );
    let none = buf.audio_buf_list::<1>(&mut rt).unwrap();
    assert_eq!(none.list().number_buffers(), 0);
    none.release(&mut rt);
    buf.release(&mut rt);
}

#[test]
fn there_is_always_one_dictionary_for_each_sample() {
    let mut rt = Runtime::new();
    let image = ImageBuf::new(2, 2, PixelFormat::_32_BGRA);
    let desc = FormatDesc::with_image_buf(&image).unwrap();
    let timing = SampleTimingInfo::invalid();
    let buf = SampleBuf::with_image_buf(&mut rt, &image, true, None, &desc, &timing).unwrap();
    buf.attaches_mut(&mut rt, true, 0).unwrap().insert(attach_keys::not_sync(), Plist::Number(3));
    assert!(buf.attaches_mut(&mut rt, true, 1).is_none());
    assert_eq!(buf.attaches(&mut rt, true).unwrap().len(), 1);
    assert_eq!(buf.attaches(&mut rt, false).unwrap().len(), 1);
    assert_eq!(buf.attaches(&mut rt, true).unwrap()[0].len(), 1);
    buf.release(&mut rt);

    let mut out: Option<R<SampleBuf>> = None;
    SampleBuf::create_in(&mut rt, None, None, true, None, None, 5, &[], &[], &mut out).unwrap();
    let five = out.unwrap();
    for i in 0..5 {
        five.attaches_mut(&mut rt, true, i).unwrap().insert("k", Plist::Number(i as i64));
        assert_eq!(five.attaches(&mut rt, false).unwrap().len(), 5);
    }
    assert!(matches!(
        five.attaches(&mut rt, false).unwrap()[4].get("k"),
        Some(Plist::Number(4))
    ));
    five.release(&mut rt);
}

#[test]
fn a_buffer_keeps_its_block_and_gives_it_back() {
    let mut rt = Runtime::new();
    let buf = SampleBuf::new(&mut rt, None, false, None).unwrap();
    let younger = BlockBuf::with_bytes(&mut rt, &[9, 8]);
    let block: BlockBuf = *younger;
    assert!(buf.as_type_ptr() < block.as_type_ptr());
    assert_eq!(buf.set_data_buf(&mut rt, &younger), Ok(()));
    younger.release(&mut rt);
    assert!(rt.is_live(&block));
    assert_eq!(rt.retain_count(&block), 1);
    let second = buf.retained(&mut rt);
    buf.release(&mut rt);
    assert!(rt.is_live(&block));
    assert_eq!(second.data_buf(&rt).unwrap().data(&rt), vec![9, 8]);
    second.release(&mut rt);
    assert!(!rt.is_live(&block));
    assert_eq!(rt.retain_count(&block), 0);
}

#[test]
fn an_array_of_buffers_gives_their_blocks_back_too() {
    let mut rt = Runtime::new();
    let data = BlockBuf::with_bytes(&mut rt, &[1]);
    let block: BlockBuf = *data;
    let buf = SampleBuf::new(&mut rt, Some(&data), true, None).unwrap();
    let handle: Type = *buf.as_type_ref();
    let arr = cidre::cf::Array::from_type_refs(&mut rt, &[handle, *block.as_type_ref()]).unwrap();
    assert_eq!(rt.retain_count(&block), 3);
    data.release(&mut rt);
    buf.release(&mut rt);
    assert_eq!(rt.retain_count(&block), 2);
    assert_eq!(rt.retain_count(&handle), 1);
    arr.release(&mut rt);
    assert!(!rt.is_live(&handle));
    assert!(!rt.is_live(&block));
}
