use crate::cv::ImageBuf;
use crate::cv::PixelFormat;
use crate::os::Error;
use vstd::prelude::*;

verus! {

/// The kind of media that a format describes.
#[derive(Clone, Copy, Debug, PartialEq, Eq, Structural)]
pub enum MediaType {
    Video,
    Audio,
    Muxed,
    Text,
    ClosedCaption,
    Subtitle,
    TimeCode,
    Metadata,
}

/// How the samples of an audio stream are laid out.
#[derive(Clone, Copy, Debug, PartialEq, Eq, Structural)]
pub struct AudioFormat {
    /// The number of channels in each frame.
    pub channels: u32,
    /// The number of bytes that one sample of one channel takes.
    pub bytes_per_sample: u32,
    /// Whether the samples of the channels of a frame lie side by side; if
    /// not, each channel has a run of its own.
    pub interleaved: bool,
    /// Whether the data is linear PCM.
    pub pcm: bool,
}

impl AudioFormat {
    /// The number of buffers that the data comes in: one where the channels
    /// are interleaved, one for each channel where they are not.
    pub open spec fn buffer_count(self) -> nat {
        if self.interleaved {
            1
        } else {
            self.channels as nat
        }
    }

    /// The number of channels in each buffer.
    pub open spec fn buffer_channels(self) -> u32 {
        if self.interleaved {
            self.channels
        } else {
            1
        }
    }

    /// The number of bytes that one frame takes in one buffer.
    pub open spec fn frame_bytes(self) -> nat {
        self.buffer_channels() as nat * self.bytes_per_sample as nat
    }

    /// The number of bytes that go to each buffer, of `len` bytes of data.
    pub open spec fn run(self, len: nat) -> nat {
        if self.interleaved {
            len
        } else if self.channels == 0 {
            0
        } else {
            len / self.channels as nat
        }
    }

    /// The number of whole frames in `len` bytes of data.
    pub open spec fn frames(self, len: nat) -> nat {
        if self.frame_bytes() == 0 {
            0
        } else {
            self.run(len) / self.frame_bytes()
        }
    }
}

/// The format of the media in a sample buffer.
#[derive(Clone, Copy, Debug, PartialEq, Eq, Structural)]
pub enum FormatDesc {
    Video { pixel_format: PixelFormat, width: usize, height: usize },
    Audio { format: AudioFormat },
    Other { media_type: MediaType },
}

impl FormatDesc {
    /// The kind of media that the format describes.
    pub open spec fn spec_media_type(&self) -> MediaType {
        match self {
            FormatDesc::Video { .. } => MediaType::Video,
            FormatDesc::Audio { .. } => MediaType::Audio,
            FormatDesc::Other { media_type } => *media_type,
        }
    }

    /// The kind of media that the format describes.
    pub fn media_type(&self) -> (t: MediaType)
        ensures
            t == self.spec_media_type(),
    {
        match self {
            FormatDesc::Video { .. } => MediaType::Video,
            FormatDesc::Audio { .. } => MediaType::Audio,
            FormatDesc::Other { media_type } => *media_type,
        }
    }

    /// The video format of the images that are laid out as `image_buf` is.
    pub fn with_image_buf(image_buf: &ImageBuf) -> (r: Result<FormatDesc, Error>)
        ensures
            r == Ok::<FormatDesc, Error>(
                FormatDesc::Video {
                    pixel_format: image_buf.pixel_format,
                    width: image_buf.width,
                    height: image_buf.height,
                },
            ),
    {
        Ok(
            FormatDesc::Video {
                pixel_format: image_buf.pixel_format,
                width: image_buf.width,
                height: image_buf.height,
            },
        )
    }

    /// The format of an audio stream that is laid out as `format` says.
    #[inline]
    pub fn with_audio_format(format: AudioFormat) -> (desc: FormatDesc)
        ensures
            desc == (FormatDesc::Audio { format }),
    {
        FormatDesc::Audio { format }
    }

    /// Whether the format is a video format that describes images laid out as
    /// `image_buf` is.
    pub open spec fn spec_matches_image_buf(&self, image_buf: &ImageBuf) -> bool {
        *self == (FormatDesc::Video {
            pixel_format: image_buf.pixel_format,
            width: image_buf.width,
            height: image_buf.height,
        })
    }

    /// Whether the format is a video format that describes images laid out as
    /// `image_buf` is.
    pub fn matches_image_buf(&self, image_buf: &ImageBuf) -> (yes: bool)
        ensures
            yes == self.spec_matches_image_buf(image_buf),
    {
        match self {
            FormatDesc::Video { pixel_format, width, height } => *pixel_format
                == image_buf.pixel_format && *width == image_buf.width && *height
                == image_buf.height,
            _ => false,
        }
    }

    /// The audio layout, where the format is an audio format.
    pub fn audio_format(&self) -> (f: Option<AudioFormat>)
        ensures
            f == match *self {
                FormatDesc::Audio { format } => Some(format),
                _ => None,
            },
    {
        match self {
            FormatDesc::Audio { format } => Some(*format),
            _ => None,
        }
    }
}

} // verus!
