use crate::arc::Release;
use crate::arc::Retain;
use crate::arc::R;
use crate::cat::bufs_of;
use crate::cat::size_of_bufs;
use crate::cat::spec_bufs_in;
use crate::cat::spec_size_of_bufs;
use crate::cat::AudioBufListN;
use crate::cat::Buf;
use crate::cat::BufList;
use crate::cat::BufView;
use crate::cat::StreamPacketDesc;
use crate::cf::allocator::Allocator;
use crate::cf::dictionary::Dictionary;
use crate::cf::runtime::Index;
use crate::cf::plist::PlistView;
use crate::cf::runtime::Type;
use crate::cf::runtime::TypeId;
use crate::cm::block_buffer::BlockBuf;
use crate::cm::format_description::AudioFormat;
use crate::cm::format_description::FormatDesc;
use crate::cm::sample_buffer::attach_keys::NOT_SYNC;
use crate::cm::sample_buffer::err::ALLOC_FAILED;
use crate::cm::sample_buffer::err::ALREADY_HAS_DATA_BUFFER;
use crate::cm::sample_buffer::err::ARRAY_TOO_SMALL;
use crate::cm::sample_buffer::err::INVALID_MEDIA_TYPE_FOR_OPERATION;
use crate::cm::sample_buffer::err::BUFFER_NOT_READY;
use crate::cm::sample_buffer::err::INVALIDATED;
use crate::cm::sample_buffer::err::INVALID_ENTRY_COUNT;
use crate::cm::sample_buffer::err::INVALID_MEDIA_FORMAT;
use crate::cm::sample_buffer::err::SAMPLE_INDEX_OUT_OF_RANGE;
use crate::cm::time::Time;
use crate::cv::ImageBuf;
use crate::foreign::payload::elems_of;
use crate::foreign::payload::Elem;
use crate::foreign::payload::Kept;
use crate::foreign::Heap;
use crate::foreign::Payload;
use crate::foreign::Runtime;
use crate::foreign::State;
use crate::foreign::SAMPLE_BUF_TYPE_ID;
use crate::os::status_result;
use crate::os::Error;
use crate::os::Status;
use vstd::prelude::*;
use vstd::slice::slice_subrange;
use vstd::slice::slice_to_vec;

pub mod attach_keys;
pub mod buf_attach_keys;
pub mod err;


verus! {

/// Options of the calls that hand out sample data.
#[derive(Debug, PartialEq, Eq, Hash, Copy, Clone, Structural)]
pub struct Flags(pub u32);

/// Make sure memory involved in audio buffer lists is 16-byte aligned.
pub const AUDIO_BUFFER_LIST_ASSURE_16_BYTE_ALIGNMENT: u32 = 1;

impl Default for Flags {
    fn default() -> (f: Flags)
        ensures
            f == Flags(0),
    {
        Flags(0)
    }
}

impl From<u32> for Flags {
    #[inline]
    fn from(value: u32) -> (f: Flags) {
        Flags(value)
    }
}

impl vstd::std_specs::convert::FromSpecImpl<u32> for Flags {
    open spec fn obeys_from_spec() -> bool {
        true
    }

    open spec fn from_spec(value: u32) -> Flags {
        Flags(value)
    }
}

impl Flags {
    /// Whether no option is set.
    #[inline]
    pub fn is_empty(&self) -> (empty: bool)
        ensures
            empty == (self.0 == 0),
    {
        self.0 == 0
    }

    /// Whether any option of `mask` is set.
    pub fn any(&self, mask: Self) -> (some: bool)
        ensures
            some == (self.0 & mask.0 != 0),
    {
        self.0 & mask.0 != 0
    }

    /// Whether every option of `val` is set.
    #[inline]
    pub fn contains(&self, val: Self) -> (all: bool)
        ensures
            all == (self.0 & val.0 == val.0),
    {
        self.0 & val.0 == val.0
    }

    /// Sets the options of `val`.
    #[inline]
    pub fn insert(&mut self, val: Self)
        ensures
            final(self).0 == old(self).0 | val.0,
    {
        self.0 = self.0 | val.0;
    }

    /// Clears the options of `val`.
    #[inline]
    pub fn remove(&mut self, val: Self)
        ensures
            final(self).0 == old(self).0 & !val.0,
    {
        self.0 = self.0 & !val.0;
    }

    /// Sets the options of `val` where `on` is set, and clears them where it
    /// is not.
    #[inline]
    pub fn set(&mut self, val: Self, on: bool)
        ensures
            final(self).0 == if on {
                old(self).0 | val.0
            } else {
                old(self).0 & !val.0
            },
    {
        if on {
            self.insert(val)
        } else {
            self.remove(val)
        }
    }
}

impl vstd::std_specs::ops::BitAndSpecImpl for Flags {
    open spec fn obeys_bitand_spec() -> bool {
        true
    }

    open spec fn bitand_req(self, rhs: Flags) -> bool {
        true
    }

    open spec fn bitand_spec(self, rhs: Flags) -> Flags {
        Flags(self.0 & rhs.0)
    }
}

impl std::ops::BitAnd for Flags {
    type Output = Flags;

    #[inline]
    fn bitand(self, rhs: Self) -> (out: Flags) {
        Flags(self.0 & rhs.0)
    }
}

impl vstd::std_specs::ops::BitOrSpecImpl for Flags {
    open spec fn obeys_bitor_spec() -> bool {
        true
    }

    open spec fn bitor_req(self, rhs: Flags) -> bool {
        true
    }

    open spec fn bitor_spec(self, rhs: Flags) -> Flags {
        Flags(self.0 | rhs.0)
    }
}

impl std::ops::BitOr for Flags {
    type Output = Flags;

    #[inline]
    fn bitor(self, rhs: Self) -> (out: Flags) {
        Flags(self.0 | rhs.0)
    }
}

impl vstd::std_specs::ops::BitXorSpecImpl for Flags {
    open spec fn obeys_bitxor_spec() -> bool {
        true
    }

    open spec fn bitxor_req(self, rhs: Flags) -> bool {
        true
    }

    open spec fn bitxor_spec(self, rhs: Flags) -> Flags {
        Flags(self.0 ^ rhs.0)
    }
}

impl std::ops::BitXor for Flags {
    type Output = Flags;

    #[inline]
    fn bitxor(self, rhs: Self) -> (out: Flags) {
        Flags(self.0 ^ rhs.0)
    }
}

impl vstd::std_specs::ops::NotSpecImpl for Flags {
    open spec fn obeys_not_spec() -> bool {
        true
    }

    open spec fn not_req(self) -> bool {
        true
    }

    open spec fn not_spec(self) -> Flags {
        Flags(!self.0)
    }
}

impl std::ops::Not for Flags {
    type Output = Flags;

    #[inline]
    fn not(self) -> (out: Flags) {
        Flags(!self.0)
    }
}

/// A count of samples.
pub type ItemCount = isize;

/// The place of a sample in its buffer.
pub type ItemIndex = isize;

/// The routine that the maker of a sample buffer supplies to make the
/// buffer's data ready on demand, held as the status that the routine reports
/// when it is run.
#[derive(Clone, Copy, Debug, PartialEq, Eq, Structural)]
pub struct SampleBufMakeDataReadyCb {
    pub status: Status,
}

/// When samples are shown and decoded.
#[derive(Clone, Copy, Debug, PartialEq, Eq, Structural)]
pub struct SampleTimingInfo {
    /// The duration of the sample. If a single struct applies to each of the
    /// samples, they all will have this duration.
    pub duration: Time,
    /// The time at which the sample will be presented. If a single struct
    /// applies to each of the samples, this is the presentation time of the
    /// first sample.
    pub pts: Time,
    /// The time at which the sample will be decoded.
    pub dts: Time,
}

impl SampleTimingInfo {
    /// The timing that says nothing: no duration and no time stamps.
    #[inline]
    pub fn invalid() -> (info: SampleTimingInfo)
        ensures
            !info.duration.spec_is_valid(),
            !info.pts.spec_is_valid(),
            !info.dts.spec_is_valid(),
            info == (SampleTimingInfo {
                duration: Time { value: 0, scale: 0, flags: 0, epoch: 0 },
                pts: Time { value: 0, scale: 0, flags: 0, epoch: 0 },
                dts: Time { value: 0, scale: 0, flags: 0, epoch: 0 },
            }),
    {
        SampleTimingInfo { duration: Time::invalid(), pts: Time::invalid(), dts: Time::invalid() }
    }
}

impl Default for SampleTimingInfo {
    fn default() -> (info: SampleTimingInfo)
        ensures
            info == (SampleTimingInfo {
                duration: Time { value: 0, scale: 0, flags: 0, epoch: 0 },
                pts: Time { value: 0, scale: 0, flags: 0, epoch: 0 },
                dts: Time { value: 0, scale: 0, flags: 0, epoch: 0 },
            }),
    {
        SampleTimingInfo { duration: Time::invalid(), pts: Time::invalid(), dts: Time::invalid() }
    }
}

/// What a sample buffer holds, as the runtime stores it.
pub struct SampleBufState {
    kept: Vec<Kept>,
    image_buf: Option<ImageBuf>,
    data_ready: bool,
    make_data_ready_cb: Option<SampleBufMakeDataReadyCb>,
    format_desc: Option<FormatDesc>,
    num_samples: ItemCount,
    timing: Vec<SampleTimingInfo>,
    sizes: Vec<usize>,
    attaches: Option<Vec<Dictionary>>,
    valid: bool,
}

impl SampleBufState {
    /// The block that the buffer keeps, if it keeps one.
    pub(crate) fn kept(&self) -> (kept: &Vec<Kept>)
        ensures
            elems_of(kept@) == self@.kept,
    {
        &self.kept
    }

    /// The block that the buffer keeps, for the runtime to change.
    pub(crate) fn kept_mut(&mut self) -> (kept: &mut Vec<Kept>)
        ensures
            elems_of(kept@) == old(self)@.kept,
            final(self)@ == (SampleBufView { kept: elems_of(final(kept)@), ..old(self)@ }),
    {
        &mut self.kept
    }
}

/// What a sample buffer holds, as contracts speak of it.
pub struct SampleBufView {
    /// The block of media data, once the buffer has one, with the reference
    /// through which the buffer keeps the block there.
    pub kept: Seq<Elem>,
    /// The image, where the buffer carries one.
    pub image_buf: Option<ImageBuf>,
    /// Whether the data can be used now.
    pub data_ready: bool,
    /// The routine that makes the data ready on demand, if the maker gave one.
    pub make_data_ready_cb: Option<SampleBufMakeDataReadyCb>,
    pub format_desc: Option<FormatDesc>,
    pub num_samples: ItemCount,
    /// No timing, one timing for all samples, or one for each, as the
    /// creation call was given them. No function of this library reads them:
    /// what a sample's timing comes to is for the platform's own time
    /// arithmetic to say.
    pub timing: Seq<SampleTimingInfo>,
    /// No size, one size for all samples, or one for each.
    pub sizes: Seq<usize>,
    /// One dictionary for each sample, once they were asked for.
    pub attaches: Option<Seq<Map<Seq<char>, PlistView>>>,
    /// Whether the buffer can still be used.
    pub valid: bool,
}

/// The views of a list of dictionaries.
pub open spec fn dictionaries_of(list: Seq<Dictionary>) -> Seq<Map<Seq<char>, PlistView>> {
    Seq::new(list.len(), |i: int| list[i]@)
}

impl View for SampleBufState {
    type V = SampleBufView;

    closed spec fn view(&self) -> SampleBufView {
        SampleBufView {
            kept: elems_of(self.kept@),
            image_buf: self.image_buf,
            data_ready: self.data_ready,
            make_data_ready_cb: self.make_data_ready_cb,
            format_desc: self.format_desc,
            num_samples: self.num_samples,
            timing: self.timing@,
            sizes: self.sizes@,
            attaches: match self.attaches {
                Some(list) => Some(dictionaries_of(list@)),
                None => None,
            },
            valid: self.valid,
        }
    }
}

/// Whether a timing or size array of `entries` entries fits a buffer of
/// `num_samples` samples: none, one for all, or one for each.
pub open spec fn entry_count_fits(entries: nat, num_samples: int) -> bool {
    entries == 0 || entries == 1 || entries == num_samples
}

/// The status of a creation call for `num_samples` samples with `timings`
/// timing entries and `sizes` size entries, on a runtime that has room for one
/// more object or has not.
pub open spec fn create_status(
    allocator: Option<&Allocator>,
    num_samples: ItemCount,
    timings: nat,
    sizes: nat,
    has_room: bool,
) -> Status {
    if num_samples < 0 || !entry_count_fits(timings, num_samples as int) || !entry_count_fits(
        sizes,
        num_samples as int,
    ) {
        Status(INVALID_ENTRY_COUNT)
    } else if !Allocator::spec_gives_memory(allocator) || !has_room {
        Status(ALLOC_FAILED)
    } else {
        Status(0)
    }
}

/// The status of a creation call for a buffer that carries `image_buf`,
/// described by `format_description`.
pub open spec fn create_for_image_status(
    allocator: Option<&Allocator>,
    image_buf: &ImageBuf,
    format_description: &FormatDesc,
    has_room: bool,
) -> Status {
    if !format_description.spec_matches_image_buf(image_buf) {
        Status(INVALID_MEDIA_FORMAT)
    } else if !Allocator::spec_gives_memory(allocator) || !has_room {
        Status(ALLOC_FAILED)
    } else {
        Status(0)
    }
}

/// The sum of the sizes in `sizes`.
pub open spec fn sum_sizes(sizes: Seq<usize>) -> nat
    decreases sizes.len(),
{
    if sizes.len() == 0 {
        0
    } else {
        sum_sizes(sizes.drop_last()) + sizes.last() as nat
    }
}

/// `n`, or the largest `usize` where `n` is larger than that.
pub open spec fn saturated(n: nat) -> usize {
    if n <= usize::MAX {
        n as usize
    } else {
        usize::MAX
    }
}

impl SampleBufView {
    /// Whether the buffer is in order: it keeps one block at most, and its
    /// sample attachments, once they are there, are one dictionary for each
    /// sample.
    pub open spec fn wf(self) -> bool {
        &&& self.kept.len() <= 1
        &&& self.attaches matches Some(list) ==> list.len() == self.sample_count()
    }

    /// Whether the buffer has a block of media data.
    pub open spec fn has_data(self) -> bool {
        self.kept.len() > 0
    }

    /// The number of samples; a count below zero stands for none.
    pub open spec fn sample_count(self) -> nat {
        if self.num_samples > 0 {
            self.num_samples as nat
        } else {
            0
        }
    }

    /// The size in bytes of the sample at `sample_index`: the one size where
    /// all samples share one, its own size where each sample has one, and zero
    /// where the buffer has no sizes or no such sample.
    pub open spec fn sample_size(self, sample_index: ItemIndex) -> usize {
        if sample_index < 0 || sample_index >= self.num_samples {
            0
        } else if self.sizes.len() == 1 {
            self.sizes[0]
        } else if sample_index < self.sizes.len() {
            self.sizes[sample_index as int]
        } else {
            0
        }
    }

    /// The size in bytes of all samples together.
    pub open spec fn total_sample_size(self) -> nat {
        if self.sizes.len() == 1 {
            self.sizes[0] as nat * self.sample_count()
        } else {
            sum_sizes(self.sizes)
        }
    }

    /// This buffer with its sample attachments in place: where it had none,
    /// one empty dictionary for each sample.
    pub open spec fn with_attaches(self) -> SampleBufView {
        if self.attaches is None {
            SampleBufView {
                attaches: Some(
                    Seq::new(self.sample_count(), |i: int| Map::<Seq<char>, PlistView>::empty()),
                ),
                ..self
            }
        } else {
            self
        }
    }

    /// Whether the first sample is a key frame: it is one unless its
    /// attachments say under the not-sync key anything but `false`.
    pub open spec fn is_key_frame(self) -> bool {
        match self.attaches {
            None => true,
            Some(list) => list.len() == 0 || !list[0].dom().contains(NOT_SYNC@) || list[0][NOT_SYNC@]
                == PlistView::Boolean(false),
        }
    }

    /// The audio layout of the samples, where the buffer holds audio.
    pub open spec fn audio_format(self) -> Option<AudioFormat> {
        match self.format_desc {
            Some(FormatDesc::Audio { format }) => Some(format),
            _ => None,
        }
    }

    /// Whether the buffer can hand out its audio data, as a status: it has to
    /// be usable, to hold audio, and to have data that is ready.
    pub open spec fn audio_status(self) -> Status {
        if !self.valid {
            Status(INVALIDATED)
        } else if self.audio_format() is None {
            Status(INVALID_MEDIA_TYPE_FOR_OPERATION)
        } else if !self.has_data() || !self.data_ready {
            Status(BUFFER_NOT_READY)
        } else {
            Status(0)
        }
    }

    /// The audio data `data` as a list of buffers: one buffer of all channels where
    /// the samples are interleaved, and one buffer for each channel, each with
    /// an equal run of the data, where they are not.
    pub open spec fn audio_bufs(self, data: Seq<u8>) -> Seq<BufView> {
        let format = self.audio_format()->0;
        if format.interleaved {
            seq![BufView { number_channels: format.channels, data }]
        } else {
            let run = data.len() as int / format.channels as int;
            Seq::new(
                format.channels as nat,
                |c: int| BufView { number_channels: 1, data: data.subrange(c * run, (c + 1) * run) },
            )
        }
    }

    /// The status of asking for the audio data in a list with room for `room`
    /// buffers, where one more count can be taken on the block or cannot.
    pub open spec fn audio_bufs_status(self, room: nat, can_make_block: bool) -> Status {
        if self.audio_status().0 != 0 {
            self.audio_status()
        } else if self.audio_format()->0.buffer_count() > room {
            Status(ARRAY_TOO_SMALL)
        } else if !can_make_block {
            Status(ALLOC_FAILED)
        } else {
            Status(0)
        }
    }

    /// The status of asking for the audio data in a list that is given the
    /// room that the data needs, where one more count can be taken on the
    /// block or cannot.
    pub open spec fn audio_resized_status(self, can_make_block: bool) -> Status {
        if self.audio_size_status().0 != 0 {
            self.audio_size_status()
        } else if !can_make_block {
            Status(ALLOC_FAILED)
        } else {
            Status(0)
        }
    }

    /// The status of asking how large a list the audio data needs.
    pub open spec fn audio_size_status(self) -> Status {
        if self.audio_status().0 != 0 {
            self.audio_status()
        } else if spec_size_of_bufs(self.audio_format()->0.buffer_count()) > usize::MAX {
            Status(ALLOC_FAILED)
        } else {
            Status(0)
        }
    }

    /// The status of copying `num_frames` frames, from frame `frame_offset`
    /// on, into the buffers `list`. The buffer has to be usable and to hold
    /// PCM audio that is ready, the frames have to be there, and the list has
    /// to have the buffers and channels of the audio and room for the frames.
    pub open spec fn pcm_status(
        self,
        data: Seq<u8>,
        frame_offset: i32,
        num_frames: i32,
        list: Seq<BufView>,
    ) -> Status {
        let format = self.audio_format()->0;
        if !self.valid {
            Status(INVALIDATED)
        } else if self.audio_format() is None {
            Status(INVALID_MEDIA_TYPE_FOR_OPERATION)
        } else if !format.pcm {
            Status(INVALID_MEDIA_FORMAT)
        } else if !self.has_data() || !self.data_ready {
            Status(BUFFER_NOT_READY)
        } else if frame_offset < 0 || num_frames < 0 || frame_offset + num_frames > format.frames(
            data.len(),
        ) {
            Status(SAMPLE_INDEX_OUT_OF_RANGE)
        } else if list.len() != format.buffer_count() || exists|c: int|
            0 <= c < list.len() && (#[trigger] list[c]).number_channels
                != format.buffer_channels() {
            Status(INVALID_MEDIA_FORMAT)
        } else if exists|c: int|
            0 <= c < list.len() && (#[trigger] list[c]).data.len() < num_frames
                * format.frame_bytes() {
            Status(ARRAY_TOO_SMALL)
        } else {
            Status(0)
        }
    }

    /// The buffers `list` after `num_frames` frames, from frame `frame_offset`
    /// on, were copied to the front of each: buffer `c` gets the frames of
    /// run `c` of the data, and keeps what it held behind them.
    pub open spec fn pcm_copied(
        self,
        data: Seq<u8>,
        frame_offset: i32,
        num_frames: i32,
        list: Seq<BufView>,
    ) -> Seq<BufView> {
        let format = self.audio_format()->0;
        let frame = format.frame_bytes() as int;
        let run = format.run(data.len()) as int;
        Seq::new(
            list.len(),
            |c: int|
                BufView {
                    number_channels: list[c].number_channels,
                    data: data.subrange(
                        c * run + frame_offset * frame,
                        c * run + (frame_offset + num_frames) * frame,
                    ) + list[c].data.subrange(num_frames * frame, list[c].data.len() as int),
                },
        )
    }

    /// What making the data ready comes to: nothing to do where the data is
    /// ready, a failure where there is no routine to run or the routine
    /// fails, and ready data where the routine succeeds.
    pub open spec fn make_data_ready_status(self) -> Status {
        if !self.valid {
            Status(INVALIDATED)
        } else if self.data_ready {
            Status(0)
        } else {
            match self.make_data_ready_cb {
                Some(cb) => if cb.status.0 == 0 {
                    Status(0)
                } else {
                    Status(BUFFER_NOT_READY)
                },
                None => Status(BUFFER_NOT_READY),
            }
        }
    }

    /// The buffer that a creation call makes from its arguments.
    pub open spec fn created(
        data_ready: bool,
        make_data_ready_cb: Option<&SampleBufMakeDataReadyCb>,
        format_description: Option<&FormatDesc>,
        num_samples: ItemCount,
        timing: Seq<SampleTimingInfo>,
        sizes: Seq<usize>,
    ) -> SampleBufView {
        SampleBufView {
            kept: Seq::empty(),
            image_buf: None,
            data_ready,
            make_data_ready_cb: match make_data_ready_cb {
                Some(cb) => Some(*cb),
                None => None,
            },
            format_desc: match format_description {
                Some(d) => Some(*d),
                None => None,
            },
            num_samples,
            timing,
            sizes,
            attaches: None,
            valid: true,
        }
    }

    /// The buffer that a creation call makes for one image.
    pub open spec fn created_for_image(
        image_buf: &ImageBuf,
        data_ready: bool,
        make_data_ready_cb: Option<&SampleBufMakeDataReadyCb>,
        format_description: &FormatDesc,
        sample_timing: &SampleTimingInfo,
    ) -> SampleBufView {
        SampleBufView {
            kept: Seq::empty(),
            image_buf: Some(*image_buf),
            data_ready,
            make_data_ready_cb: match make_data_ready_cb {
                Some(cb) => Some(*cb),
                None => None,
            },
            format_desc: Some(*format_description),
            num_samples: 1,
            timing: seq![*sample_timing],
            sizes: Seq::empty(),
            attaches: None,
            valid: true,
        }
    }
}

/// A view of a sample buffer: an object that holds zero or more media samples
/// of one kind, or describes samples whose data is still to come.
#[derive(Clone, Copy, Debug)]
pub struct SampleBuf(Type);

impl std::ops::Deref for SampleBuf {
    type Target = Type;

    #[inline]
    fn deref(&self) -> (t: &Type)
        ensures
            *t == self.as_type(),
    {
        &self.0
    }
}

impl Release for SampleBuf {
    closed spec fn as_type(&self) -> Type {
        self.0
    }

    open spec fn admits(id: TypeId) -> bool {
        id == SAMPLE_BUF_TYPE_ID
    }

    #[inline]
    fn as_type_ref(&self) -> (t: &Type) {
        &self.0
    }

    #[inline]
    fn admits_tag(id: TypeId) -> (yes: bool) {
        id == SAMPLE_BUF_TYPE_ID
    }

    #[inline]
    fn narrow(t: &Type, rt: &Runtime) -> (view: SampleBuf) {
        SampleBuf(*t)
    }

    #[inline]
    fn release(&mut self, rt: &mut Runtime, owner: Ghost<nat>) {
        self.0.release(rt, owner)
    }
}

impl Retain for SampleBuf {
    #[inline]
    fn retained(&self, rt: &mut Runtime) -> (r: R<SampleBuf>) {
        SampleBuf::retained(self, rt)
    }
}

impl SampleBuf {
    /// The tag of every sample buffer.
    #[inline]
    pub fn type_id() -> (id: TypeId)
        ensures
            id == SAMPLE_BUF_TYPE_ID,
    {
        SAMPLE_BUF_TYPE_ID
    }

    /// The address of the object.
    pub open spec fn addr(&self) -> u64 {
        self.as_type().addr()
    }

    /// Whether this view has a live sample buffer behind it in `heap`.
    pub open spec fn valid_in(&self, heap: Heap) -> bool {
        heap.live(self.addr()) && heap.type_id(self.addr()) == SAMPLE_BUF_TYPE_ID
    }

    /// What the buffer at this view's address holds in `heap`.
    pub open spec fn buf_in(&self, heap: Heap) -> SampleBufView {
        heap.state(self.addr())->SampleBuf_0
    }

    /// The address of the block that the buffer keeps in `heap`.
    pub open spec fn block_in(&self, heap: Heap) -> u64 {
        self.buf_in(heap).kept[0].addr
    }

    /// The bytes of the block that the buffer keeps in `heap`.
    pub open spec fn data_in(&self, heap: Heap) -> Seq<u8> {
        heap.state(self.block_in(heap))->BlockBuf_0
    }

    /// The runtime after a creation call made this kind of buffer in the state
    /// `buf` and the buffer took the block `block`, if there is one, as the
    /// block that it keeps, with a count of its own.
    pub open spec fn made_in(heap: Heap, buf: SampleBufView, block: Option<&BlockBuf>) -> Heap {
        match block {
            Some(b) => heap.create(State::SampleBuf(buf)).keep(heap.next_addr(), b.addr()),
            None => heap.create(State::SampleBuf(buf)),
        }
    }

    /// Whether the block `block`, if there is one, can be given to a buffer:
    /// it is there, and it has a count to spare.
    pub open spec fn can_take(heap: Heap, block: Option<&BlockBuf>) -> bool {
        block matches Some(b) ==> b.valid_in(heap) && heap.retain_count(b.addr()) < u64::MAX
    }

    /// `heap` with this buffer changed to `buf`.
    pub open spec fn put_in(&self, heap: Heap, buf: SampleBufView) -> Heap {
        heap.put(self.addr(), State::SampleBuf(buf))
    }

    fn state<'a>(&self, rt: &'a Runtime) -> (s: &'a SampleBufState)
        requires
            self.valid_in(rt@),
        ensures
            s@ == self.buf_in(rt@),
    {
        match rt.payload(&self.0) {
            Payload::SampleBuf(s) => s,
            _ => unreached(),
        }
    }

    fn state_mut<'a>(&self, rt: &'a mut Runtime) -> (s: &'a mut SampleBufState)
        requires
            old(rt).wf(),
            self.valid_in(old(rt)@),
        ensures
            s@ == self.buf_in(old(rt)@),
            s@.wf(),
            final(rt)@ == self.put_in(old(rt)@, final(s)@),
            final(s)@.wf() && final(s)@.kept == s@.kept ==> final(rt).wf(),
    {
        proof {
            let h = rt@;
            let addr = self.addr();
            assert(h.slot_wf(addr));
            assert forall|state: State|
                state is SampleBuf && state.wf() && state.elems() == h.elems(
                    addr,
                ) implies (#[trigger] h.put(addr, state)).wf() by {
                h.lemma_put_wf(addr, state);
            }
        }
        match rt.payload_mut(&self.0) {
            Payload::SampleBuf(s) => s,
            _ => unreached(),
        }
    }

    /// A second owned reference to the same buffer.
    #[inline]
    pub fn retained(&self, rt: &mut Runtime) -> (r: R<SampleBuf>)
        requires
            old(rt).wf(),
            self.valid_in(old(rt)@),
            old(rt)@.retain_count(self.addr()) < u64::MAX,
        ensures
            final(rt).wf(),
            final(rt)@ == old(rt)@.retain(self.addr()),
            r.target().as_type() == self.as_type(),
            r.owner() == old(rt)@.next_owner,
            r.held_in(final(rt)@),
    {
        Type::retain(&self.0, rt)
    }

    /// Returns whether or not the buffer's data is ready.
    #[inline]
    pub fn data_is_ready(&self, rt: &Runtime) -> (ready: bool)
        requires
            self.valid_in(rt@),
        ensures
            ready == self.buf_in(rt@).data_ready,
    {
        self.state(rt).data_ready
    }

    /// Marks the buffer's data as ready.
    #[inline]
    pub fn set_data_ready(&self, rt: &mut Runtime)
        requires
            old(rt).wf(),
            self.valid_in(old(rt)@),
        ensures
            final(rt).wf(),
            final(rt)@ == self.put_in(
                old(rt)@,
                SampleBufView { data_ready: true, ..self.buf_in(old(rt)@) },
            ),
    {
        let s = self.state_mut(rt);
        s.data_ready = true;
    }

    /// Makes a sample buffer with no samples. The caller owns the one count of
    /// the new buffer.
    #[inline]
    pub fn new(
        rt: &mut Runtime,
        data_buf: Option<&BlockBuf>,
        data_ready: bool,
        format_description: Option<&FormatDesc>,
    ) -> (r: Result<R<SampleBuf>, Error>)
        requires
            old(rt).wf(),
            Self::can_take(old(rt)@, data_buf),
        ensures
            final(rt).wf(),
            r is Ok <==> old(rt)@.has_room(),
            r is Err ==> r->Err_0 == Error(ALLOC_FAILED) && final(rt)@ == old(rt)@,
            r is Ok ==> {
                &&& final(rt)@ == Self::made_in(
                    old(rt)@,
                    SampleBufView::created(
                        data_ready,
                        None,
                        format_description,
                        0,
                        Seq::empty(),
                        Seq::empty(),
                    ),
                    data_buf,
                )
                &&& r->Ok_0.addr() == old(rt)@.next_addr()
                &&& r->Ok_0.owner() == old(rt)@.next_owner
                &&& r->Ok_0.held_in(final(rt)@)
            },
    {
        let timing: Vec<SampleTimingInfo> = Vec::new();
        let sizes: Vec<usize> = Vec::new();
        let mut out: Option<R<SampleBuf>> = None;
        let res = Self::create_in(
            rt,
            None,
            data_buf,
            data_ready,
            None,
            format_description,
            0,
            timing.as_slice(),
            sizes.as_slice(),
            &mut out,
        );
        crate::os::result_unchecked(res, out)
    }

    /// Makes a sample buffer and leaves an owned reference to it in
    /// `sample_buffer_out`. The buffer takes a count of its own on
    /// `data_buffer`, which it gives back when it goes. Where the call fails,
    /// nothing is made, nothing is owned, no count is taken, and
    /// `sample_buffer_out` is as it was.
    pub fn create_in(
        rt: &mut Runtime,
        allocator: Option<&Allocator>,
        data_buffer: Option<&BlockBuf>,
        data_ready: bool,
        make_data_ready_cb: Option<&SampleBufMakeDataReadyCb>,
        format_description: Option<&FormatDesc>,
        num_samples: ItemCount,
        sample_timing_array: &[SampleTimingInfo],
        sample_size_array: &[usize],
        sample_buffer_out: &mut Option<R<SampleBuf>>,
    ) -> (r: Result<(), Error>)
        requires
            old(rt).wf(),
            Self::can_take(old(rt)@, data_buffer),
        ensures
            final(rt).wf(),
            r == status_result(
                create_status(
                    allocator,
                    num_samples,
                    sample_timing_array@.len(),
                    sample_size_array@.len(),
                    old(rt)@.has_room(),
                ),
            ),
            r is Err ==> final(rt)@ == old(rt)@ && *final(sample_buffer_out) == *old(
                sample_buffer_out,
            ),
            r is Ok ==> {
                &&& final(rt)@ == Self::made_in(
                    old(rt)@,
                    SampleBufView::created(
                        data_ready,
                        make_data_ready_cb,
                        format_description,
                        num_samples,
                        sample_timing_array@,
                        sample_size_array@,
                    ),
                    data_buffer,
                )
                &&& *final(sample_buffer_out) is Some
                &&& (*final(sample_buffer_out))->0.addr() == old(rt)@.next_addr()
                &&& (*final(sample_buffer_out))->0.owner() == old(rt)@.next_owner
                &&& (*final(sample_buffer_out))->0.held_in(final(rt)@)
            },
    {
        if num_samples < 0 || !entry_count_ok(sample_timing_array.len(), num_samples)
            || !entry_count_ok(sample_size_array.len(), num_samples) {
            return Err(Error(INVALID_ENTRY_COUNT));
        }
        if !Allocator::gives_memory(allocator) || !rt.has_room() {
            return Err(Error(ALLOC_FAILED));
        }
        let state = SampleBufState {
            kept: Vec::new(),
            image_buf: None,
            data_ready,
            make_data_ready_cb: match make_data_ready_cb {
                Some(cb) => Some(*cb),
                None => None,
            },
            format_desc: match format_description {
                Some(d) => Some(*d),
                None => None,
            },
            num_samples,
            timing: slice_to_vec(sample_timing_array),
            sizes: slice_to_vec(sample_size_array),
            attaches: None,
            valid: true,
        };
        assert(state@.kept =~= Seq::empty());
        let (t, owner) = rt.create(Payload::SampleBuf(state));
        match data_buffer {
            Some(block) => {
                proof {
                    assert(rt@.slot(block.addr()) == old(rt)@.slot(block.addr()));
                }
                rt.keep(&t, block.as_type_ref());
            },
            None => {},
        }
        *sample_buffer_out = Some(R::adopt(SampleBuf(t), owner));
        Ok(())
    }

    /// Makes a sample buffer that carries one image. The format has to
    /// describe the image.
    pub fn with_image_buf_in(
        rt: &mut Runtime,
        allocator: Option<&Allocator>,
        image_buf: &ImageBuf,
        data_ready: bool,
        make_data_ready_cb: Option<&SampleBufMakeDataReadyCb>,
        format_description: &FormatDesc,
        sample_timing: &SampleTimingInfo,
    ) -> (r: Result<R<SampleBuf>, Error>)
        requires
            old(rt).wf(),
        ensures
            final(rt).wf(),
            r is Ok <==> create_for_image_status(
                allocator,
                image_buf,
                format_description,
                old(rt)@.has_room(),
            ) == Status(0),
            r is Err ==> final(rt)@ == old(rt)@ && Status(r->Err_0.0) == create_for_image_status(
                allocator,
                image_buf,
                format_description,
                old(rt)@.has_room(),
            ),
            r is Ok ==> {
                &&& final(rt)@ == old(rt)@.create(
                    State::SampleBuf(
                        SampleBufView::created_for_image(
                            image_buf,
                            data_ready,
                            make_data_ready_cb,
                            format_description,
                            sample_timing,
                        ),
                    ),
                )
                &&& r->Ok_0.addr() == old(rt)@.next_addr()
                &&& r->Ok_0.owner() == old(rt)@.next_owner
                &&& r->Ok_0.held_in(final(rt)@)
            },
    {
        if !format_description.matches_image_buf(image_buf) {
            return Err(Error(INVALID_MEDIA_FORMAT));
        }
        if !Allocator::gives_memory(allocator) || !rt.has_room() {
            return Err(Error(ALLOC_FAILED));
        }
        let mut timing: Vec<SampleTimingInfo> = Vec::new();
        timing.push(*sample_timing);
        let state = SampleBufState {
            kept: Vec::new(),
            image_buf: Some(*image_buf),
            data_ready,
            make_data_ready_cb: match make_data_ready_cb {
                Some(cb) => Some(*cb),
                None => None,
            },
            format_desc: Some(*format_description),
            num_samples: 1,
            timing,
            sizes: Vec::new(),
            attaches: None,
            valid: true,
        };
        assert(state@.timing =~= seq![*sample_timing]);
        assert(state@.sizes =~= Seq::empty());
        assert(state@.kept =~= Seq::empty());
        let (t, owner) = rt.create(Payload::SampleBuf(state));
        Ok(R::adopt(SampleBuf(t), owner))
    }

    /// Makes a sample buffer that carries one image, with the default
    /// allocator.
    pub fn with_image_buf(
        rt: &mut Runtime,
        image_buffer: &ImageBuf,
        data_ready: bool,
        make_data_ready_cb: Option<&SampleBufMakeDataReadyCb>,
        format_description: &FormatDesc,
        sample_timing: &SampleTimingInfo,
    ) -> (r: Result<R<SampleBuf>, Error>)
        requires
            old(rt).wf(),
        ensures
            final(rt).wf(),
            r is Ok <==> create_for_image_status(
                None,
                image_buffer,
                format_description,
                old(rt)@.has_room(),
            ) == Status(0),
            r is Err ==> final(rt)@ == old(rt)@ && Status(r->Err_0.0) == create_for_image_status(
                None,
                image_buffer,
                format_description,
                old(rt)@.has_room(),
            ),
            r is Ok ==> {
                &&& final(rt)@ == old(rt)@.create(
                    State::SampleBuf(
                        SampleBufView::created_for_image(
                            image_buffer,
                            data_ready,
                            make_data_ready_cb,
                            format_description,
                            sample_timing,
                        ),
                    ),
                )
                &&& r->Ok_0.addr() == old(rt)@.next_addr()
                &&& r->Ok_0.owner() == old(rt)@.next_owner
                &&& r->Ok_0.held_in(final(rt)@)
            },
    {
        Self::with_image_buf_in(
            rt,
            None,
            image_buffer,
            data_ready,
            make_data_ready_cb,
            format_description,
            sample_timing,
        )
    }

    /// The image that the buffer carries, if it carries one.
    #[inline]
    pub fn image_buf(&self, rt: &Runtime) -> (image: Option<ImageBuf>)
        requires
            self.valid_in(rt@),
        ensures
            image == self.buf_in(rt@).image_buf,
    {
        self.state(rt).image_buf
    }

    /// The image that the buffer carries, if it carries one, for the caller to
    /// change: what the caller leaves in it is what the buffer carries from
    /// then on.
    #[inline]
    pub fn image_buf_mut<'a>(&self, rt: &'a mut Runtime) -> (image: Option<&'a mut ImageBuf>)
        requires
            old(rt).wf(),
            self.valid_in(old(rt)@),
        ensures
            final(rt).wf(),
            image is Some <==> self.buf_in(old(rt)@).image_buf is Some,
            image is None ==> final(rt)@ == old(rt)@,
            image matches Some(i) ==> {
                &&& Some(*i) == self.buf_in(old(rt)@).image_buf
                &&& final(rt)@ == self.put_in(
                    old(rt)@,
                    SampleBufView { image_buf: Some(*final(i)), ..self.buf_in(old(rt)@) },
                )
            },
    {
        if self.state(rt).image_buf.is_none() {
            return None;
        }
        let s = self.state_mut(rt);
        match &mut s.image_buf {
            Some(image) => Some(image),
            None => None,
        }
    }

    /// The block of media data that the buffer keeps, if it keeps one. No
    /// count is taken: the block is there for as long as the buffer is.
    #[inline]
    pub fn data_buf(&self, rt: &Runtime) -> (data: Option<BlockBuf>)
        requires
            rt.wf(),
            self.valid_in(rt@),
        ensures
            data is Some <==> self.buf_in(rt@).has_data(),
            data is Some ==> data->0.addr() == self.block_in(rt@) && data->0.valid_in(rt@),
    {
        let kept = self.state(rt).kept();
        if kept.len() == 0 {
            None
        } else {
            proof {
                rt@.lemma_elem_live(self.addr(), 0);
                assert(elems_of(kept@)[0] == kept@[0]@);
            }
            let block = Type::at(kept[0].addr);
            Some(BlockBuf::narrow(&block, rt))
        }
    }

    /// Gives the buffer its block of media data. The buffer takes a count of
    /// its own on the block, which it gives back when it goes. A buffer takes
    /// a block once: one that has a block keeps it.
    pub fn set_data_buf(&self, rt: &mut Runtime, val: &BlockBuf) -> (r: Result<(), Error>)
        requires
            old(rt).wf(),
            self.valid_in(old(rt)@),
            val.valid_in(old(rt)@),
            old(rt)@.retain_count(val.addr()) < u64::MAX,
        ensures
            final(rt).wf(),
            r == status_result(
                if !self.buf_in(old(rt)@).valid {
                    Status(INVALIDATED)
                } else if self.buf_in(old(rt)@).has_data() {
                    Status(ALREADY_HAS_DATA_BUFFER)
                } else {
                    Status(0)
                },
            ),
            r is Err ==> final(rt)@ == old(rt)@,
            r is Ok ==> final(rt)@ == old(rt)@.keep(self.addr(), val.addr()),
            self.valid_in(final(rt)@),
            forall|o: nat, a: u64|
                #![trigger old(rt)@.holder.contains_pair(o, a)]
                old(rt)@.holds(o, a) ==> final(rt)@.holds(o, a),
    {
        let current = self.state(rt);
        if !current.valid {
            return Err(Error(INVALIDATED));
        }
        if current.kept().len() > 0 {
            return Err(Error(ALREADY_HAS_DATA_BUFFER));
        }
        proof {
            rt@.lemma_keep_wf(self.addr(), val.addr());
        }
        rt.keep(&self.0, val.as_type_ref());
        Ok(())
    }

    /// The format of the buffer's samples, if it was given one.
    #[inline]
    pub fn format_desc(&self, rt: &Runtime) -> (desc: Option<FormatDesc>)
        requires
            self.valid_in(rt@),
        ensures
            desc == self.buf_in(rt@).format_desc,
    {
        self.state(rt).format_desc
    }

    /// The number of samples in the buffer.
    #[inline]
    pub fn num_samples(&self, rt: &Runtime) -> (n: Index)
        requires
            self.valid_in(rt@),
        ensures
            n == self.buf_in(rt@).num_samples,
    {
        self.state(rt).num_samples
    }

    /// Returns the size in bytes of a specified sample; zero where the buffer
    /// has no sizes or no such sample.
    pub fn sample_size(&self, rt: &Runtime, sample_index: ItemIndex) -> (size: usize)
        requires
            self.valid_in(rt@),
        ensures
            size == self.buf_in(rt@).sample_size(sample_index),
    {
        let s = self.state(rt);
        if sample_index < 0 || sample_index >= s.num_samples {
            0
        } else if s.sizes.len() == 1 {
            s.sizes[0]
        } else if (sample_index as usize) < s.sizes.len() {
            s.sizes[sample_index as usize]
        } else {
            0
        }
    }

    /// Returns the total size in bytes of sample data; zero where the buffer
    /// has no sizes. A total beyond the largest `usize` comes back as that.
    pub fn total_sample_size(&self, rt: &Runtime) -> (size: usize)
        requires
            self.valid_in(rt@),
        ensures
            size == saturated(self.buf_in(rt@).total_sample_size()),
    {
        let s = self.state(rt);
        if s.sizes.len() == 1 {
            let n: usize = if s.num_samples > 0 {
                s.num_samples as usize
            } else {
                0
            };
            match s.sizes[0].checked_mul(n) {
                Some(total) => total,
                None => usize::MAX,
            }
        } else {
            let mut total: usize = 0;
            let mut i: usize = 0;
            while i < s.sizes.len()
                invariant
                    i <= s.sizes@.len(),
                    total == saturated(sum_sizes(s.sizes@.subrange(0, i as int))),
                decreases s.sizes@.len() - i,
            {
                proof {
                    assert(s.sizes@.subrange(0, i + 1).drop_last() =~= s.sizes@.subrange(
                        0,
                        i as int,
                    ));
                }
                total = total.saturating_add(s.sizes[i]);
                i = i + 1;
            }
            proof {
                assert(s.sizes@.subrange(0, i as int) =~= s.sizes@);
            }
            total
        }
    }

    /// Puts the sample attachments in place where the buffer has none yet: one
    /// empty dictionary for each sample.
    fn create_attaches(&self, rt: &mut Runtime)
        requires
            old(rt).wf(),
            self.valid_in(old(rt)@),
        ensures
            final(rt).wf(),
            final(rt)@ == self.put_in(old(rt)@, self.buf_in(old(rt)@).with_attaches()),
            self.valid_in(final(rt)@),
    {
        let ghost before = self.buf_in(rt@);
        let current = self.state(rt);
        if current.attaches.is_none() {
            let n: usize = if current.num_samples > 0 {
                current.num_samples as usize
            } else {
                0
            };
            let mut list: Vec<Dictionary> = Vec::new();
            let mut i: usize = 0;
            while i < n
                invariant
                    i <= n,
                    list@.len() == i,
                    forall|j: int|
                        0 <= j < i ==> (#[trigger] list@[j])@ == Map::<
                            Seq<char>,
                            PlistView,
                        >::empty(),
                decreases n - i,
            {
                list.push(Dictionary::new());
                i = i + 1;
            }
            assert(dictionaries_of(list@) =~= before.with_attaches().attaches->0);
            let s = self.state_mut(rt);
            s.attaches = Some(list);
        } else {
            proof {
                rt@.lemma_put_same(self.addr());
            }
        }
    }

    /// Returns the buffer's array of sample attachment dictionaries: one
    /// dictionary for each sample, whatever was done to them since they were
    /// made. Where the buffer has none yet, they are made, empty, if
    /// `create_if_necessary` is set, and nothing is returned if it is not.
    pub fn attaches<'a>(&self, rt: &'a mut Runtime, create_if_necessary: bool) -> (list: Option<
        &'a Vec<Dictionary>,
    >)
        requires
            old(rt).wf(),
            self.valid_in(old(rt)@),
        ensures
            final(rt).wf(),
            final(rt)@ == if create_if_necessary {
                self.put_in(old(rt)@, self.buf_in(old(rt)@).with_attaches())
            } else {
                old(rt)@
            },
            list is Some <==> create_if_necessary || self.buf_in(old(rt)@).attaches is Some,
            list is Some ==> Some(dictionaries_of(list->0@)) == self.buf_in(final(rt)@).attaches,
            list is Some ==> list->0@.len() == self.buf_in(old(rt)@).sample_count(),
    {
        if create_if_necessary {
            self.create_attaches(rt);
        }
        proof {
            assert(rt@.slot_wf(self.addr()));
        }
        match &self.state(rt).attaches {
            Some(list) => Some(list),
            None => None,
        }
    }

    /// Returns the attachment dictionary of the sample at `sample_index` for
    /// the caller to change: what the caller leaves in it is what the buffer
    /// holds for that sample from then on. The dictionaries are made first
    /// where the buffer has none and `create_if_necessary` is set. Nothing is
    /// returned where there are none or where there is no such sample.
    pub fn attaches_mut<'a>(
        &self,
        rt: &'a mut Runtime,
        create_if_necessary: bool,
        sample_index: usize,
    ) -> (dict: Option<&'a mut Dictionary>)
        requires
            old(rt).wf(),
            self.valid_in(old(rt)@),
        ensures
            final(rt).wf(),
            dict is Some <==> (create_if_necessary || self.buf_in(old(rt)@).attaches is Some)
                && sample_index < self.buf_in(old(rt)@).sample_count(),
            dict is None ==> final(rt)@ == if create_if_necessary {
                self.put_in(old(rt)@, self.buf_in(old(rt)@).with_attaches())
            } else {
                old(rt)@
            },
            dict matches Some(d) ==> {
                &&& d@ == self.buf_in(old(rt)@).with_attaches().attaches->0[sample_index as int]
                &&& final(rt)@ == self.put_in(
                    old(rt)@,
                    SampleBufView {
                        attaches: Some(
                            self.buf_in(old(rt)@).with_attaches().attaches->0.update(
                                sample_index as int,
                                final(d)@,
                            ),
                        ),
                        ..self.buf_in(old(rt)@)
                    },
                )
            },
    {
        if create_if_necessary {
            self.create_attaches(rt);
        }
        proof {
            assert(old(rt)@.slot_wf(self.addr()));
            assert(rt@.slot_wf(self.addr()));
        }
        let count: usize = match &self.state(rt).attaches {
            Some(list) => list.len(),
            None => {
                return None;
            },
        };
        if sample_index >= count {
            return None;
        }
        proof {
            let h = old(rt)@;
            let mid = rt@;
            let addr = self.addr();
            if create_if_necessary {
                assert forall|state: State| (#[trigger] mid.put(addr, state)) == h.put(
                    addr,
                    state,
                ) by {
                    h.lemma_put_put(
                        addr,
                        State::SampleBuf(self.buf_in(h).with_attaches()),
                        state,
                    );
                }
            }
            assert forall|list: Seq<Dictionary>, d: Dictionary|
                sample_index < list.len() implies #[trigger] dictionaries_of(
                    list.update(sample_index as int, d),
                ) == dictionaries_of(list).update(sample_index as int, d@) by {
                assert(dictionaries_of(list.update(sample_index as int, d)) =~= dictionaries_of(
                    list,
                ).update(sample_index as int, d@));
            }
        }
        let s = self.state_mut(rt);
        match &mut s.attaches {
            Some(list) => Some(&mut list[sample_index]),
            None => None,
        }
    }

    /// Whether the first sample of the buffer is a key frame. It is one unless
    /// its attachments say otherwise: no attachments, no samples, no value
    /// under the not-sync key, or the value `false` there all make a key
    /// frame.
    #[inline]
    pub fn is_key_frame(&self, rt: &Runtime) -> (key_frame: bool)
        requires
            self.valid_in(rt@),
        ensures
            key_frame == self.buf_in(rt@).is_key_frame(),
    {
        match &self.state(rt).attaches {
            Some(arr) => {
                if arr.len() == 0 {
                    true
                } else {
                    let dict = &arr[0];
                    match dict.get(attach_keys::not_sync()) {
                        None => true,
                        Some(not_sync) => not_sync.is_false(),
                    }
                }
            },
            None => true,
        }
    }

    /// Whether the attachments of the first sample hold the not-sync key,
    /// whatever its value. The buffer has to have a first sample; the
    /// attachments are made if they are not there.
    #[inline]
    pub fn contains_not_sync(&self, rt: &mut Runtime) -> (found: bool)
        requires
            old(rt).wf(),
            self.valid_in(old(rt)@),
            self.buf_in(old(rt)@).sample_count() > 0,
        ensures
            final(rt).wf(),
            final(rt)@ == self.put_in(old(rt)@, self.buf_in(old(rt)@).with_attaches()),
            found == self.buf_in(final(rt)@).attaches->0[0].dom().contains(NOT_SYNC@),
    {
        match self.attaches(rt, true) {
            Some(arr) => arr[0].contains_key(attach_keys::not_sync()),
            None => unreached(),
        }
    }

    /// Returns a value that indicates whether a sample buffer is valid.
    #[inline]
    pub fn is_valid(&self, rt: &Runtime) -> (valid: bool)
        requires
            self.valid_in(rt@),
        ensures
            valid == self.buf_in(rt@).valid,
    {
        self.state(rt).valid
    }

    /// Makes the sample buffer invalid. An invalid sample buffer cannot be
    /// used: every call on it that reports a status reports that it was
    /// invalidated, this one included.
    pub fn invalidate(&self, rt: &mut Runtime) -> (r: Result<(), Error>)
        requires
            old(rt).wf(),
            self.valid_in(old(rt)@),
        ensures
            final(rt).wf(),
            r is Ok <==> self.buf_in(old(rt)@).valid,
            r is Err ==> r->Err_0 == Error(INVALIDATED) && final(rt)@ == old(rt)@,
            r is Ok ==> final(rt)@ == self.put_in(
                old(rt)@,
                SampleBufView { valid: false, ..self.buf_in(old(rt)@) },
            ),
    {
        if !self.state(rt).valid {
            return Err(Error(INVALIDATED));
        }
        let s = self.state_mut(rt);
        s.valid = false;
        Ok(())
    }

    /// Makes the buffer's data ready, by running the routine that the maker
    /// of the buffer gave for that. Where the data is ready already nothing is
    /// run. Where it is not, and there is no routine or the routine fails, the
    /// buffer stays as it is and the call reports that it is not ready.
    pub fn make_data_ready(&self, rt: &mut Runtime) -> (r: Result<(), Error>)
        requires
            old(rt).wf(),
            self.valid_in(old(rt)@),
        ensures
            final(rt).wf(),
            r == status_result(self.buf_in(old(rt)@).make_data_ready_status()),
            r is Err ==> final(rt)@ == old(rt)@,
            r is Ok ==> final(rt)@ == self.put_in(
                old(rt)@,
                SampleBufView { data_ready: true, ..self.buf_in(old(rt)@) },
            ),
    {
        let current = self.state(rt);
        if !current.valid {
            return Err(Error(INVALIDATED));
        }
        if current.data_ready {
            proof {
                rt@.lemma_put_same(self.addr());
            }
            return Ok(());
        }
        match current.make_data_ready_cb {
            Some(cb) => {
                if cb.status.is_err() {
                    return Err(Error(BUFFER_NOT_READY));
                }
            },
            None => {
                return Err(Error(BUFFER_NOT_READY));
            },
        }
        self.set_data_ready(rt);
        Ok(())
    }

    /// The bytes of the block that the buffer keeps.
    fn data<'a>(&self, rt: &'a Runtime) -> (bytes: &'a Vec<u8>)
        requires
            rt.wf(),
            self.valid_in(rt@),
            self.buf_in(rt@).has_data(),
        ensures
            bytes@ == self.data_in(rt@),
    {
        let kept = self.state(rt).kept();
        proof {
            rt@.lemma_elem_live(self.addr(), 0);
            assert(elems_of(kept@)[0] == kept@[0]@);
        }
        let block = Type::at(kept[0].addr);
        match rt.payload(&block) {
            Payload::BlockBuf(bytes) => bytes,
            _ => unreached(),
        }
    }

    /// Copies PCM audio data from the buffer into a list of buffers that the
    /// caller has laid out: as many buffers, with as many channels each, as
    /// the audio has, each large enough for `num_frames` frames. Where the
    /// call fails the list is left as it was.
    #[verifier::loop_isolation(false)]
    pub fn copy_pcm_data_into_audio_buf_list<const N: usize>(
        &self,
        rt: &Runtime,
        frame_offset: i32,
        num_frames: i32,
        buffer_list: &mut BufList<N>,
    ) -> (r: Result<(), Error>)
        requires
            rt.wf(),
            self.valid_in(rt@),
        ensures
            r == status_result(
                self.buf_in(rt@).pcm_status(
                    self.data_in(rt@),
                    frame_offset,
                    num_frames,
                    old(buffer_list)@,
                ),
            ),
            r is Err ==> final(buffer_list)@ == old(buffer_list)@,
            r is Ok ==> final(buffer_list)@ == self.buf_in(rt@).pcm_copied(
                self.data_in(rt@),
                frame_offset,
                num_frames,
                old(buffer_list)@,
            ),
    {
        let s = self.state(rt);
        if !s.valid {
            return Err(Error(INVALIDATED));
        }
        let format = match s.format_desc {
            Some(FormatDesc::Audio { format }) => format,
            _ => {
                return Err(Error(INVALID_MEDIA_TYPE_FOR_OPERATION));
            },
        };
        if !format.pcm {
            return Err(Error(INVALID_MEDIA_FORMAT));
        }
        if s.kept().len() == 0 || !s.data_ready {
            return Err(Error(BUFFER_NOT_READY));
        }
        let data = self.data(rt).as_slice();
        let len: usize = data.len();
        let channels: u32 = if format.interleaved {
            format.channels
        } else {
            1
        };
        assert(channels * format.bytes_per_sample <= 0xffff_ffff * 0xffff_ffff)
            by (nonlinear_arith)
            requires
                0 <= channels <= 0xffff_ffff,
                0 <= format.bytes_per_sample <= 0xffff_ffff,
        ;
        let frame: u64 = channels as u64 * format.bytes_per_sample as u64;
        let count: usize = if format.interleaved {
            1
        } else {
            format.channels as usize
        };
        let run: usize = if format.interleaved {
            len
        } else if format.channels == 0 {
            0
        } else {
            len / format.channels as usize
        };
        let frames: u64 = if frame == 0 {
            0
        } else {
            run as u64 / frame
        };
        assert(frame == format.frame_bytes() && run == format.run(len as nat) && frames
            == format.frames(len as nat) && count == format.buffer_count());
        if frame_offset < 0 || num_frames < 0 || frame_offset as u64 + num_frames as u64 > frames {
            return Err(Error(SAMPLE_INDEX_OUT_OF_RANGE));
        }
        assert(0 <= frame_offset * frame <= (frame_offset + num_frames) * frame <= run
            && frame_offset * frame + num_frames * frame == (frame_offset + num_frames) * frame
            && 0 <= num_frames * frame) by (nonlinear_arith)
            requires
                0 <= frame_offset,
                0 <= num_frames,
                frame_offset + num_frames <= frames,
                frame > 0 ==> frames == run as int / frame as int,
                frame == 0 ==> frames == 0,
                0 <= frame,
                0 <= run,
        ;
        let from: usize = (frame_offset as u64 * frame) as usize;
        let bytes: usize = (num_frames as u64 * frame) as usize;
        let ghost list = buffer_list@;
        if buffer_list.number_buffers() != count {
            return Err(Error(INVALID_MEDIA_FORMAT));
        }
        let mut c: usize = 0;
        while c < count
            invariant
                c <= count,
                buffer_list@ == list,
                list.len() == count,
                forall|k: int| 0 <= k < c ==> (#[trigger] list[k]).number_channels == channels,
            decreases count - c,
        {
            let bufs = buffer_list.buffers();
            assert(bufs_of(bufs@)[c as int] == bufs@[c as int]@);
            if bufs[c].number_channels != channels {
                assert(list[c as int].number_channels != channels);
                return Err(Error(INVALID_MEDIA_FORMAT));
            }
            c = c + 1;
        }
        c = 0;
        while c < count
            invariant
                c <= count,
                buffer_list@ == list,
                list.len() == count,
                forall|k: int| 0 <= k < count ==> (#[trigger] list[k]).number_channels == channels,
                forall|k: int| 0 <= k < c ==> (#[trigger] list[k]).data.len() >= bytes,
            decreases count - c,
        {
            let bufs = buffer_list.buffers();
            assert(bufs_of(bufs@)[c as int] == bufs@[c as int]@);
            if bufs[c].data.len() < bytes {
                assert(list[c as int].data.len() < bytes);
                return Err(Error(ARRAY_TOO_SMALL));
            }
            c = c + 1;
        }
        let ghost wanted = self.buf_in(rt@).pcm_copied(
            self.data_in(rt@),
            frame_offset,
            num_frames,
            list,
        );
        c = 0;
        while c < count
            invariant
                c <= count,
                buffer_list@.len() == count,
                list.len() == count,
                wanted == self.buf_in(rt@).pcm_copied(
                    self.data_in(rt@),
                    frame_offset,
                    num_frames,
                    list,
                ),
                self.buf_in(rt@).audio_format() == Some(format),
                self.data_in(rt@) == data@,
                len == data@.len(),
                frame == format.frame_bytes(),
                run == format.run(len as nat),
                count == format.buffer_count(),
                from == frame_offset * frame,
                bytes == num_frames * frame,
                from + bytes == (frame_offset + num_frames) * frame,
                from + bytes <= run,
                forall|k: int| 0 <= k < count ==> (#[trigger] list[k]).data.len() >= bytes,
                forall|k: int| 0 <= k < c ==> #[trigger] buffer_list@[k] == wanted[k],
                forall|k: int| c <= k < count ==> #[trigger] buffer_list@[k] == list[k],
            decreases count - c,
        {
            assert(0 <= c * run <= c * run + run == (c + 1) * run <= len) by (nonlinear_arith)
                requires
                    c < count,
                    run == format.run(len as nat),
                    count == format.buffer_count(),
                    0 <= run,
            ;
            let start: usize = c * run + from;
            let end: usize = start + bytes;
            let mut copy: Vec<u8> = slice_to_vec(slice_subrange(data, start, end));
            let ghost piece = copy@;
            let bufs = buffer_list.buffers();
            assert(bufs_of(bufs@)[c as int] == bufs@[c as int]@);
            let held = &bufs[c].data;
            assert(held@ == list[c as int].data);
            assert(copy@ =~= piece + held@.subrange(bytes as int, bytes as int));
            let mut k: usize = bytes;
            while k < held.len()
                invariant
                    bytes <= k <= held@.len(),
                    copy@ == piece + held@.subrange(bytes as int, k as int),
                decreases held@.len() - k,
            {
                copy.push(held[k]);
                assert(copy@ =~= piece + held@.subrange(bytes as int, k + 1));
                k = k + 1;
            }
            assert(held@.subrange(bytes as int, k as int) == list[c as int].data.subrange(
                num_frames * frame,
                list[c as int].data.len() as int,
            ));
            buffer_list.replace_data(c, copy);
            c = c + 1;
        }
        assert(buffer_list@ =~= wanted);
        Ok(())
    }

    /// Returns the descriptions of the packets of the buffer's audio data.
    /// No creation call of this library takes packet descriptions, so no
    /// buffer has any: a buffer that holds audio answers with none, and only
    /// a buffer that holds audio can be asked.
    #[inline]
    pub fn audio_stream_packet_descs(&self, rt: &Runtime) -> (r: Result<
        Option<Vec<StreamPacketDesc>>,
        Error,
    >)
        requires
            self.valid_in(rt@),
        ensures
            r == if !self.buf_in(rt@).valid {
                Err::<Option<Vec<StreamPacketDesc>>, Error>(Error(INVALIDATED))
            } else if self.buf_in(rt@).audio_format() is None {
                Err::<Option<Vec<StreamPacketDesc>>, Error>(
                    Error(INVALID_MEDIA_TYPE_FOR_OPERATION),
                )
            } else {
                Ok::<Option<Vec<StreamPacketDesc>>, Error>(None)
            },
    {
        let s = self.state(rt);
        if !s.valid {
            return Err(Error(INVALIDATED));
        }
        match s.format_desc {
            Some(FormatDesc::Audio { .. }) => Ok(None),
            _ => Err(Error(INVALID_MEDIA_TYPE_FOR_OPERATION)),
        }
    }

    /// The audio data of the buffer as buffers.
    fn audio_bufs(&self, rt: &Runtime) -> (r: Result<Vec<Buf>, Error>)
        requires
            rt.wf(),
            self.valid_in(rt@),
        ensures
            r is Ok <==> self.buf_in(rt@).audio_status() == Status(0),
            r is Err ==> Status(r->Err_0.0) == self.buf_in(rt@).audio_status(),
            r is Ok ==> bufs_of(r->Ok_0@) == self.buf_in(rt@).audio_bufs(self.data_in(rt@)),
            r is Ok ==> r->Ok_0@.len() == self.buf_in(rt@).audio_format()->0.buffer_count(),
    {
        let s = self.state(rt);
        if !s.valid {
            return Err(Error(INVALIDATED));
        }
        let format = match s.format_desc {
            Some(FormatDesc::Audio { format }) => format,
            _ => {
                return Err(Error(INVALID_MEDIA_TYPE_FOR_OPERATION));
            },
        };
        if s.kept().len() == 0 || !s.data_ready {
            return Err(Error(BUFFER_NOT_READY));
        }
        let ghost wanted = self.buf_in(rt@).audio_bufs(self.data_in(rt@));
        let data = self.data(rt).as_slice();
        let len: usize = data.len();
        let mut bufs: Vec<Buf> = Vec::new();
        if format.interleaved {
            bufs.push(Buf { number_channels: format.channels, data: slice_to_vec(data) });
            assert(bufs_of(bufs@) =~= wanted);
        } else {
            let channels: usize = format.channels as usize;
            let run: usize = if channels == 0 {
                0
            } else {
                len / channels
            };
            let mut c: usize = 0;
            while c < channels
                invariant
                    c <= channels,
                    channels == format.channels,
                    channels > 0 ==> run == data@.len() as int / channels as int,
                    data@.len() <= usize::MAX,
                    data@ == self.data_in(rt@),
                    wanted == self.buf_in(rt@).audio_bufs(self.data_in(rt@)),
                    self.buf_in(rt@).audio_format() == Some(format),
                    !format.interleaved,
                    bufs@.len() == c,
                    forall|k: int| 0 <= k < c ==> (#[trigger] bufs@[k])@ == wanted[k],
                decreases channels - c,
            {
                assert(0 <= c * run <= c * run + run == (c + 1) * run <= data@.len())
                    by (nonlinear_arith)
                    requires
                        c < channels,
                        run == data@.len() as int / channels as int,
                        channels > 0,
                ;
                let from: usize = c * run;
                let to: usize = from + run;
                let piece = slice_to_vec(slice_subrange(data, from, to));
                bufs.push(Buf { number_channels: 1, data: piece });
                c = c + 1;
            }
            assert(bufs_of(bufs@) =~= wanted);
        }
        Ok(bufs)
    }

    /// The size in bytes of the buffer list that the audio data needs.
    fn audio_buf_list_size_needed(&self, rt: &Runtime) -> (r: Result<usize, Error>)
        requires
            self.valid_in(rt@),
        ensures
            r is Ok <==> self.buf_in(rt@).audio_size_status() == Status(0),
            r is Err ==> Status(r->Err_0.0) == self.buf_in(rt@).audio_size_status(),
            r is Ok ==> r->Ok_0 == spec_size_of_bufs(
                self.buf_in(rt@).audio_format()->0.buffer_count(),
            ) && spec_bufs_in(r->Ok_0) == self.buf_in(rt@).audio_format()->0.buffer_count(),
    {
        let s = self.state(rt);
        if !s.valid {
            return Err(Error(INVALIDATED));
        }
        let format = match s.format_desc {
            Some(FormatDesc::Audio { format }) => format,
            _ => {
                return Err(Error(INVALID_MEDIA_TYPE_FOR_OPERATION));
            },
        };
        if s.kept().len() == 0 || !s.data_ready {
            return Err(Error(BUFFER_NOT_READY));
        }
        let count: usize = if format.interleaved {
            1
        } else {
            format.channels as usize
        };
        match size_of_bufs(count) {
            Some(size) => Ok(size),
            None => Err(Error(ALLOC_FAILED)),
        }
    }

    /// Whether one more count can be taken on the block that the buffer keeps
    /// in `heap`.
    pub open spec fn can_hand_out(&self, heap: Heap) -> bool {
        heap.retain_count(self.block_in(heap)) < u64::MAX
    }

    /// Whether `block` is what a call handed out with the audio data of the
    /// buffer: an owned reference to the block that the buffer keeps, with a
    /// count of its own, which the call took.
    pub open spec fn handed_out(&self, before: Heap, after: Heap, block: R<BlockBuf>) -> bool {
        &&& after == before.retain(self.block_in(before))
        &&& block.addr() == self.block_in(before)
        &&& block.owner() == before.next_owner
        &&& block.held_in(after)
    }

    /// Takes one more count on the block that the buffer keeps.
    fn retained_block(&self, rt: &mut Runtime) -> (block: R<BlockBuf>)
        requires
            old(rt).wf(),
            self.valid_in(old(rt)@),
            self.buf_in(old(rt)@).has_data(),
            self.can_hand_out(old(rt)@),
        ensures
            final(rt).wf(),
            self.handed_out(old(rt)@, final(rt)@, block),
    {
        match self.data_buf(rt) {
            Some(view) => view.retained(rt),
            None => unreached(),
        }
    }

    /// Whether one more count can be taken on the block that the buffer
    /// keeps.
    fn block_has_spare_count(&self, rt: &Runtime) -> (yes: bool)
        requires
            rt.wf(),
            self.valid_in(rt@),
            self.buf_in(rt@).has_data(),
        ensures
            yes == self.can_hand_out(rt@),
    {
        match self.data_buf(rt) {
            Some(view) => rt.retain_count(view.as_type_ref()) < u64::MAX,
            None => unreached(),
        }
    }

    /// Makes a list of at most `N` audio buffers that holds the data of the
    /// buffer, with the option that assures the alignment of the data and
    /// with the default allocators.
    #[inline]
    pub fn audio_buf_list<const N: usize>(&self, rt: &mut Runtime) -> (r: Result<
        BlockBufAudioBufList<N>,
        Error,
    >)
        requires
            old(rt).wf(),
            self.valid_in(old(rt)@),
        ensures
            final(rt).wf(),
            r is Ok <==> self.buf_in(old(rt)@).audio_bufs_status(
                N as nat,
                self.can_hand_out(old(rt)@),
            ) == Status(0),
            r is Err ==> final(rt)@ == old(rt)@ && Status(r->Err_0.0) == self.buf_in(
                old(rt)@,
            ).audio_bufs_status(N as nat, self.can_hand_out(old(rt)@)),
            r is Ok ==> r->Ok_0.bufs() == self.buf_in(old(rt)@).audio_bufs(
                self.data_in(old(rt)@),
            ) && self.handed_out(old(rt)@, final(rt)@, r->Ok_0.owned()),
            r is Ok ==> r->Ok_0.options() == Flags(AUDIO_BUFFER_LIST_ASSURE_16_BYTE_ALIGNMENT),
    {
        self.audio_buf_list_in(rt, Flags(AUDIO_BUFFER_LIST_ASSURE_16_BYTE_ALIGNMENT), None, None)
    }

    /// Fills `list` with the audio data of the buffer: asks how large a list
    /// the data needs, gives `list` that room, and has it filled. The block
    /// that comes with it is the block that the buffer keeps; the caller owns
    /// the one count that the call takes on it. Where the call fails, `list`
    /// and the runtime are as they were.
    #[inline]
    pub fn audio_buf_list_n<'a>(&self, rt: &mut Runtime, list: &'a mut AudioBufListN) -> (r:
        Result<BlockBufAudioBufListN<'a>, Error>)
        requires
            old(rt).wf(),
            self.valid_in(old(rt)@),
        ensures
            final(rt).wf(),
            r is Ok <==> self.buf_in(old(rt)@).audio_resized_status(self.can_hand_out(old(rt)@))
                == Status(0),
            r is Err ==> {
                &&& final(rt)@ == old(rt)@
                &&& Status(r->Err_0.0) == self.buf_in(old(rt)@).audio_resized_status(
                    self.can_hand_out(old(rt)@),
                )
                &&& final(list)@ == old(list)@
                &&& final(list).spec_room() == old(list).spec_room()
            },
            r is Ok ==> {
                &&& r->Ok_0.bufs() == self.buf_in(old(rt)@).audio_bufs(self.data_in(old(rt)@))
                &&& r->Ok_0.room() == self.buf_in(old(rt)@).audio_format()->0.buffer_count()
                &&& self.handed_out(old(rt)@, final(rt)@, r->Ok_0.owned())
            },
    {
        let buf_list_size = self.audio_buf_list_size_needed(rt)?;
        if !self.block_has_spare_count(rt) {
            return Err(Error(ALLOC_FAILED));
        }
        list.resize(buf_list_size);
        let block_buf = self.fill_audio_buf_list(rt, list)?;
        Ok(BlockBufAudioBufListN::new(list, block_buf))
    }

    /// Fills `list` with the audio data of the buffer, if the list has room
    /// for it, and takes the count on the block that comes with the data.
    fn fill_audio_buf_list(&self, rt: &mut Runtime, list: &mut AudioBufListN) -> (r: Result<
        R<BlockBuf>,
        Error,
    >)
        requires
            old(rt).wf(),
            self.valid_in(old(rt)@),
        ensures
            final(rt).wf(),
            r is Ok <==> self.buf_in(old(rt)@).audio_bufs_status(
                old(list).spec_room(),
                self.can_hand_out(old(rt)@),
            ) == Status(0),
            r is Err ==> {
                &&& final(rt)@ == old(rt)@
                &&& Status(r->Err_0.0) == self.buf_in(old(rt)@).audio_bufs_status(
                    old(list).spec_room(),
                    self.can_hand_out(old(rt)@),
                )
                &&& final(list)@ == old(list)@
            },
            r is Ok ==> final(list)@ == self.buf_in(old(rt)@).audio_bufs(self.data_in(old(rt)@))
                && self.handed_out(old(rt)@, final(rt)@, r->Ok_0),
            final(list).spec_room() == old(list).spec_room(),
    {
        let bufs = self.audio_bufs(rt)?;
        if bufs.len() > list.room() {
            return Err(Error(ARRAY_TOO_SMALL));
        }
        if !self.block_has_spare_count(rt) {
            return Err(Error(ALLOC_FAILED));
        }
        list.fill(bufs);
        Ok(self.retained_block(rt))
    }

    /// Makes a list of at most `N` audio buffers that holds the data of the
    /// buffer, together with an owned reference to the block that the buffer
    /// keeps. The data of the buffers is copied, so every buffer is one
    /// contiguous run, whatever the options, and nothing is allocated for the
    /// block, whatever the allocators. The caller owns the one count that the
    /// call takes on the block.
    #[inline]
    pub fn audio_buf_list_in<const N: usize>(
        &self,
        rt: &mut Runtime,
        flags: Flags,
        block_buffer_structure_allocator: Option<&Allocator>,
        block_buffer_allocator: Option<&Allocator>,
    ) -> (r: Result<BlockBufAudioBufList<N>, Error>)
        requires
            old(rt).wf(),
            self.valid_in(old(rt)@),
        ensures
            final(rt).wf(),
            r is Ok <==> self.buf_in(old(rt)@).audio_bufs_status(
                N as nat,
                self.can_hand_out(old(rt)@),
            ) == Status(0),
            r is Err ==> final(rt)@ == old(rt)@ && Status(r->Err_0.0) == self.buf_in(
                old(rt)@,
            ).audio_bufs_status(N as nat, self.can_hand_out(old(rt)@)),
            r is Ok ==> r->Ok_0.bufs() == self.buf_in(old(rt)@).audio_bufs(
                self.data_in(old(rt)@),
            ) && self.handed_out(old(rt)@, final(rt)@, r->Ok_0.owned()),
            r is Ok ==> r->Ok_0.options() == flags,
    {
        let bufs = self.audio_bufs(rt)?;
        let list = match BufList::<N>::with_buffers(bufs) {
            Some(list) => list,
            None => {
                return Err(Error(ARRAY_TOO_SMALL));
            },
        };
        if !self.block_has_spare_count(rt) {
            return Err(Error(ALLOC_FAILED));
        }
        let block = self.retained_block(rt);
        Ok(BlockBufAudioBufList { list, block, flags })
    }
}

/// A list of audio buffers that was filled from a sample buffer, together
/// with an owned reference to the block that came with the data.
pub struct BlockBufAudioBufListN<'a> {
    list: &'a mut AudioBufListN,
    block: R<BlockBuf>,
}

impl<'a> BlockBufAudioBufListN<'a> {
    /// The buffers of the list.
    pub closed spec fn bufs(&self) -> Seq<BufView> {
        self.list@
    }

    /// The number of buffers that the list has room for.
    pub closed spec fn room(&self) -> nat {
        self.list.spec_room()
    }

    /// The owned reference to the block.
    pub closed spec fn owned(&self) -> R<BlockBuf> {
        self.block
    }

    /// Puts a list and the owned reference to its block together. The
    /// reference moves in as it is: no count is taken and none is given back.
    pub fn new(list: &'a mut AudioBufListN, block: R<BlockBuf>) -> (both: Self)
        ensures
            both.bufs() == old(list)@,
            both.room() == old(list).spec_room(),
            both.owned() == block,
    {
        Self { list, block }
    }

    /// The list of buffers.
    #[inline]
    pub fn list(&self) -> (list: &AudioBufListN)
        ensures
            list@ == self.bufs(),
            list.spec_room() == self.room(),
    {
        &*self.list
    }

    /// A view of the block: the object that the owned reference of this value
    /// accounts for. No count is taken.
    #[inline]
    pub fn block(&self) -> (block: &BlockBuf)
        ensures
            *block == self.owned().target(),
    {
        &self.block
    }

    /// Ends the value: the one count of the block goes back to the runtime.
    /// The list stays with its owner.
    pub fn release(self, rt: &mut Runtime)
        requires
            old(rt).wf(),
            self.owned().held_in(old(rt)@),
        ensures
            final(rt).wf(),
            final(rt)@ == old(rt)@.release(self.owned().addr(), self.owned().owner()),
            final(rt)@.released_from(old(rt)@, self.owned().addr(), self.owned().owner()),
            !final(rt)@.outstanding(self.owned().owner()),
    {
        self.block.release(rt);
    }
}

/// A list of at most `N` audio buffers that was filled from a sample buffer,
/// together with an owned reference to the block that came with the data.
pub struct BlockBufAudioBufList<const N: usize> {
    list: BufList<N>,
    block: R<BlockBuf>,
    flags: Flags,
}

impl<const N: usize> BlockBufAudioBufList<N> {
    /// The buffers of the list.
    pub closed spec fn bufs(&self) -> Seq<BufView> {
        self.list@
    }

    /// The options under which the list was made.
    pub closed spec fn options(&self) -> Flags {
        self.flags
    }

    /// The options under which the list was made.
    #[inline]
    pub fn flags(&self) -> (flags: Flags)
        ensures
            flags == self.options(),
    {
        self.flags
    }

    /// The owned reference to the block.
    pub closed spec fn owned(&self) -> R<BlockBuf> {
        self.block
    }

    /// The list of buffers.
    #[inline]
    pub fn list(&self) -> (list: &BufList<N>)
        ensures
            list@ == self.bufs(),
    {
        &self.list
    }

    /// The list of buffers, for the caller to change.
    #[inline]
    pub fn list_mut(&mut self) -> (list: &mut BufList<N>)
        ensures
            list@ == old(self).bufs(),
            final(self).bufs() == final(list)@,
            final(self).owned() == old(self).owned(),
            final(self).options() == old(self).options(),
    {
        &mut self.list
    }

    /// A view of the block: the object that the owned reference of this value
    /// accounts for. No count is taken.
    #[inline]
    pub fn block(&self) -> (block: &BlockBuf)
        ensures
            *block == self.owned().target(),
    {
        &self.block
    }

    /// Ends the value: the one count of the block goes back to the runtime.
    pub fn release(self, rt: &mut Runtime)
        requires
            old(rt).wf(),
            self.owned().held_in(old(rt)@),
        ensures
            final(rt).wf(),
            final(rt)@ == old(rt)@.release(self.owned().addr(), self.owned().owner()),
            final(rt)@.released_from(old(rt)@, self.owned().addr(), self.owned().owner()),
            !final(rt)@.outstanding(self.owned().owner()),
    {
        self.block.release(rt);
    }
}

/// Whether an array of `entries` entries fits a buffer of `num_samples`
/// samples.
fn entry_count_ok(entries: usize, num_samples: ItemCount) -> (ok: bool)
    requires
        num_samples >= 0,
    ensures
        ok == entry_count_fits(entries as nat, num_samples as int),
{
    entries == 0 || entries == 1 || entries == num_samples as usize
}

} // verus!
