//! The keys of the attachments of whole sample buffers.
use vstd::prelude::*;

verus! {

/// A boolean.
pub const RESET_DECODER_BEFORE_DECODING: &'static str = "ResetDecoderBeforeDecoding";

/// A boolean.
pub const DRAIN_AFTER_DECODING: &'static str = "DrainAfterDecoding";

/// A dictionary that the client defines.
pub const POST_NOTIFICATION_WHEN_CONSUMED: &'static str = "PostNotificationWhenConsumed";

/// A number: the tag to resume with.
pub const RESUME_OUTPUT: &'static str = "ResumeOutput";

/// Marks a transition from one source of buffers to another.
pub const TRANSITION_ID: &'static str = "TransitionID";

/// The duration that should be removed at the beginning of the sample buffer, after
/// decoding.
pub const TRIM_DURATION_AT_START: &'static str = "TrimDurationAtStart";

/// The duration that should be removed at the end of the sample buffer, after
/// decoding.
pub const TRIM_DURATION_AT_END: &'static str = "TrimDurationAtEnd";

/// Indicates that the decoded contents of the sample buffer should be reversed.
pub const REVERSE: &'static str = "Reverse";

/// Fill the difference between discontiguous sample buffers with silence.
pub const FILL_DISCONTINUITIES_WITH_SILENCE: &'static str = "FillDiscontinuitiesWithSilence";

/// Marks an intentionally empty interval in the sequence of samples.
pub const EMPTY_MEDIA: &'static str = "EmptyMedia";

/// Marks the end of the sequence of samples.
pub const PERMANENT_EMPTY_MEDIA: &'static str = "PermanentEmptyMedia";

/// Tells that the empty marker should be dequeued immediately regardless of its
/// timestamp.
pub const DISPLAY_EMPTY_MEDIA_IMMEDIATELY: &'static str = "DisplayEmptyMediaImmediately";

/// Indicates that the buffer's decode timestamp may be used to define the previous
/// sample buffer's duration.
pub const ENDS_PREVIOUS_SAMPLE_DURATION: &'static str = "EndsPreviousSampleDuration";

/// Indicates the URL where the sample data is.
pub const SAMPLE_REFERENCE_URL: &'static str = "SampleReferenceURL";

/// Indicates the byte offset at which the sample data begins.
pub const SAMPLE_REFERENCE_BYTE_OFFSET: &'static str = "SampleReferenceByteOffset";

/// Indicates the reason the current video frame was dropped.
pub const DROPPED_FRAME_REASON: &'static str = "DroppedFrameReason";

/// Indicates additional information regarding the dropped video frame.
pub const DROPPED_FRAME_REASON_INFO: &'static str = "DroppedFrameReasonInfo";

/// Indicates information about the lens stabilization applied to the current still
/// image buffer.
pub const STILL_IMAGE_LENS_STABILIZATION_INFO: &'static str = "StillImageLensStabilizationInfo";

/// Indicates the 3x3 camera intrinsic matrix applied to the current sample buffer.
pub const CAMERA_INTRINSIC_MATRIX: &'static str = "CameraIntrinsicMatrix";

/// Indicates that the current or next video sample buffer should be forced to be
/// encoded as a key frame.
pub const FORCE_KEY_FRAME: &'static str = "ForceKeyFrame";

/// A boolean.
#[inline]
pub fn reset_decoder_before_decoding() -> (key: &'static str)
    ensures
        key@ == RESET_DECODER_BEFORE_DECODING@,
{
    RESET_DECODER_BEFORE_DECODING
}

/// A boolean.
#[inline]
pub fn drain_after_decoding() -> (key: &'static str)
    ensures
        key@ == DRAIN_AFTER_DECODING@,
{
    DRAIN_AFTER_DECODING
}

/// A dictionary that the client defines.
#[inline]
pub fn post_notification_when_consumed() -> (key: &'static str)
    ensures
        key@ == POST_NOTIFICATION_WHEN_CONSUMED@,
{
    POST_NOTIFICATION_WHEN_CONSUMED
}

/// A number: the tag to resume with.
#[inline]
pub fn resume_output() -> (key: &'static str)
    ensures
        key@ == RESUME_OUTPUT@,
{
    RESUME_OUTPUT
}

/// Marks a transition from one source of buffers to another.
#[inline]
pub fn transition_id() -> (key: &'static str)
    ensures
        key@ == TRANSITION_ID@,
{
    TRANSITION_ID
}

/// The duration that should be removed at the beginning of the sample buffer, after
/// decoding.
#[inline]
pub fn trim_duration_at_start() -> (key: &'static str)
    ensures
        key@ == TRIM_DURATION_AT_START@,
{
    TRIM_DURATION_AT_START
}

/// The duration that should be removed at the end of the sample buffer, after
/// decoding.
#[inline]
pub fn trim_duration_at_end() -> (key: &'static str)
    ensures
        key@ == TRIM_DURATION_AT_END@,
{
    TRIM_DURATION_AT_END
}

/// Indicates that the decoded contents of the sample buffer should be reversed.
#[inline]
pub fn reverse() -> (key: &'static str)
    ensures
        key@ == REVERSE@,
{
    REVERSE
}

/// Fill the difference between discontiguous sample buffers with silence.
#[inline]
pub fn fill_discontinuities_with_silence() -> (key: &'static str)
    ensures
        key@ == FILL_DISCONTINUITIES_WITH_SILENCE@,
{
    FILL_DISCONTINUITIES_WITH_SILENCE
}

/// Marks an intentionally empty interval in the sequence of samples.
#[inline]
pub fn empty_media() -> (key: &'static str)
    ensures
        key@ == EMPTY_MEDIA@,
{
    EMPTY_MEDIA
}

/// Marks the end of the sequence of samples.
#[inline]
pub fn permanent_empty_media() -> (key: &'static str)
    ensures
        key@ == PERMANENT_EMPTY_MEDIA@,
{
    PERMANENT_EMPTY_MEDIA
}

/// Tells that the empty marker should be dequeued immediately regardless of its
/// timestamp.
#[inline]
pub fn display_empty_media_immediately() -> (key: &'static str)
    ensures
        key@ == DISPLAY_EMPTY_MEDIA_IMMEDIATELY@,
{
    DISPLAY_EMPTY_MEDIA_IMMEDIATELY
}

/// Indicates that the buffer's decode timestamp may be used to define the previous
/// sample buffer's duration.
#[inline]
pub fn ends_previous_sample_duration() -> (key: &'static str)
    ensures
        key@ == ENDS_PREVIOUS_SAMPLE_DURATION@,
{
    ENDS_PREVIOUS_SAMPLE_DURATION
}

/// Indicates the URL where the sample data is.
#[inline]
pub fn sample_reference_url() -> (key: &'static str)
    ensures
        key@ == SAMPLE_REFERENCE_URL@,
{
    SAMPLE_REFERENCE_URL
}

/// Indicates the byte offset at which the sample data begins.
#[inline]
pub fn sample_reference_byte_offset() -> (key: &'static str)
    ensures
        key@ == SAMPLE_REFERENCE_BYTE_OFFSET@,
{
    SAMPLE_REFERENCE_BYTE_OFFSET
}

/// Indicates the reason the current video frame was dropped.
#[inline]
pub fn dropped_frame_reason() -> (key: &'static str)
    ensures
        key@ == DROPPED_FRAME_REASON@,
{
    DROPPED_FRAME_REASON
}

/// Indicates additional information regarding the dropped video frame.
#[inline]
pub fn dropped_frame_reason_info() -> (key: &'static str)
    ensures
        key@ == DROPPED_FRAME_REASON_INFO@,
{
    DROPPED_FRAME_REASON_INFO
}

/// Indicates information about the lens stabilization applied to the current still
/// image buffer.
#[inline]
pub fn still_image_lens_stabilization_info() -> (key: &'static str)
    ensures
        key@ == STILL_IMAGE_LENS_STABILIZATION_INFO@,
{
    STILL_IMAGE_LENS_STABILIZATION_INFO
}

/// Indicates the 3x3 camera intrinsic matrix applied to the current sample buffer.
#[inline]
pub fn camera_intrinsic_matrix() -> (key: &'static str)
    ensures
        key@ == CAMERA_INTRINSIC_MATRIX@,
{
    CAMERA_INTRINSIC_MATRIX
}

/// Indicates that the current or next video sample buffer should be forced to be
/// encoded as a key frame.
#[inline]
pub fn force_key_frame() -> (key: &'static str)
    ensures
        key@ == FORCE_KEY_FRAME@,
{
    FORCE_KEY_FRAME
}

} // verus!
