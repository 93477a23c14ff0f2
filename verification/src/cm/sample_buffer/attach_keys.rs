//! The keys of the attachments of single samples.
use vstd::prelude::*;

verus! {

/// A boolean; absence of this key implies sync.
pub const NOT_SYNC: &'static str = "NotSync";

/// A boolean; absence of this key implies not partial sync.
pub const PARTIAL_SYNC: &'static str = "PartialSync";

/// A boolean, or absent if unknown.
pub const HAS_REDUNDANT_CODING: &'static str = "HasRedundantCoding";

/// A boolean, or absent if unknown. A frame is droppable if and only if this key is
/// present and false.
pub const IS_DEPENDED_ON_BY_OTHERS: &'static str = "IsDependedOnByOthers";

/// A boolean: true for a frame that needs others, false for one that stands alone,
/// or absent if unknown.
pub const DEPENDS_ON_OTHERS: &'static str = "DependsOnOthers";

/// A boolean.
pub const EARLIER_DISPLAY_TIMES_ALLOWED: &'static str = "EarlierDisplayTimesAllowed";

/// A boolean.
pub const DISPLAY_IMMEDIATELY: &'static str = "DisplayImmediately";

/// A boolean.
pub const DO_NOT_DISPLAY: &'static str = "DoNotDisplay";

/// Auxiliary data for the decryption of parts of a sample.
pub const CRYPTOR_SUBSAMPLE_AUXILIARY_DATA: &'static str = "CryptorSubsampleAuxiliaryData";

/// HDR10+ metadata of one frame.
pub const HDR10PLUS_PER_FRAME_DATA: &'static str = "HDR10PlusPerFrameData";

/// A boolean; absence of this key implies sync.
#[inline]
pub fn not_sync() -> (key: &'static str)
    ensures
        key@ == NOT_SYNC@,
{
    NOT_SYNC
}

/// A boolean; absence of this key implies not partial sync.
#[inline]
pub fn partial_sync() -> (key: &'static str)
    ensures
        key@ == PARTIAL_SYNC@,
{
    PARTIAL_SYNC
}

/// A boolean, or absent if unknown.
#[inline]
pub fn has_redundant_coding() -> (key: &'static str)
    ensures
        key@ == HAS_REDUNDANT_CODING@,
{
    HAS_REDUNDANT_CODING
}

/// A boolean, or absent if unknown. A frame is droppable if and only if this key is
/// present and false.
#[inline]
pub fn is_depended_on_by_others() -> (key: &'static str)
    ensures
        key@ == IS_DEPENDED_ON_BY_OTHERS@,
{
    IS_DEPENDED_ON_BY_OTHERS
}

/// A boolean: true for a frame that needs others, false for one that stands alone,
/// or absent if unknown.
#[inline]
pub fn depends_on_others() -> (key: &'static str)
    ensures
        key@ == DEPENDS_ON_OTHERS@,
{
    DEPENDS_ON_OTHERS
}

/// A boolean.
#[inline]
pub fn earlier_display_times_allowed() -> (key: &'static str)
    ensures
        key@ == EARLIER_DISPLAY_TIMES_ALLOWED@,
{
    EARLIER_DISPLAY_TIMES_ALLOWED
}

/// A boolean.
#[inline]
pub fn display_immediately() -> (key: &'static str)
    ensures
        key@ == DISPLAY_IMMEDIATELY@,
{
    DISPLAY_IMMEDIATELY
}

/// A boolean.
#[inline]
pub fn do_not_display() -> (key: &'static str)
    ensures
        key@ == DO_NOT_DISPLAY@,
{
    DO_NOT_DISPLAY
}

/// Auxiliary data for the decryption of parts of a sample.
#[inline]
pub fn cryptor_subsample_auxiliary_data() -> (key: &'static str)
    ensures
        key@ == CRYPTOR_SUBSAMPLE_AUXILIARY_DATA@,
{
    CRYPTOR_SUBSAMPLE_AUXILIARY_DATA
}

/// HDR10+ metadata of one frame.
#[inline]
pub fn hdr10plus_per_frame_data() -> (key: &'static str)
    ensures
        key@ == HDR10PLUS_PER_FRAME_DATA@,
{
    HDR10PLUS_PER_FRAME_DATA
}

} // verus!
