//! Descriptions of audio taps.
pub mod tap_description;

pub use tap_description::TapDesc;
pub use tap_description::TapMuteBehavior;
