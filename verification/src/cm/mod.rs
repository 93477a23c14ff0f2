//! Media samples and what travels with them.
pub mod block_buffer;
pub mod format_description;
pub mod sample_buffer;
pub mod time;

pub use block_buffer::BlockBuf;
pub use format_description::AudioFormat;
pub use format_description::FormatDesc;
pub use format_description::MediaType;
pub use sample_buffer::SampleBuf;
pub use sample_buffer::SampleBufMakeDataReadyCb;
pub use sample_buffer::SampleTimingInfo;
pub use time::Time;
