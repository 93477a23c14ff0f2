//! The status codes of the failures of sample buffer calls.
use vstd::prelude::*;

verus! {

/// An allocation failed.
pub const ALLOC_FAILED: i32 = -12730;

/// Nothing was passed for a required parameter.
pub const REQUIRED_PARAMETER_MISSING: i32 = -12731;

/// Attempt was made to set a data buffer on a sample buffer that already has
/// one.
pub const ALREADY_HAS_DATA_BUFFER: i32 = -12732;

/// Buffer could not be made ready.
pub const BUFFER_NOT_READY: i32 = -12733;

/// Sample index was not between 0 and the number of samples less one.
pub const SAMPLE_INDEX_OUT_OF_RANGE: i32 = -12734;

/// Attempt to get sample size information when there was none.
pub const BUFFER_HAS_NO_SAMPLE_SIZES: i32 = -12735;

/// Attempt to get sample timing information when there was none.
pub const BUFFER_HAS_NO_SAMPLE_TIMING_INFO: i32 = -12736;

/// Output array was not large enough for the array being requested.
pub const ARRAY_TOO_SMALL: i32 = -12737;

/// Timing info or size array entry count was not 0, 1, or the number of
/// samples.
pub const INVALID_ENTRY_COUNT: i32 = -12738;

/// Sample buffer does not contain sample sizes.
pub const CANNOT_SUBDIVIDE: i32 = -12739;

/// Buffer unexpectedly contains a non-numeric sample timing info.
pub const SAMPLE_TIMING_INFO_INVALID: i32 = -12740;

/// The media type specified by a format description is not valid for the
/// given operation.
pub const INVALID_MEDIA_TYPE_FOR_OPERATION: i32 = -12741;

/// Buffer contains bad data.
pub const INVALID_SAMPLE_DATA: i32 = -12742;

/// The format of the given media does not match the given format description.
pub const INVALID_MEDIA_FORMAT: i32 = -12743;

/// The sample buffer was invalidated.
pub const INVALIDATED: i32 = -12744;

/// The sample buffer's data loading operation failed.
pub const DATA_FAILED: i32 = -16750;

/// The sample buffer's data loading operation was canceled.
pub const DATA_CANCELED: i32 = -16751;

} // verus!
