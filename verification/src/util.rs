//! The image model: a single frame with its display delay, an ordered frame
//! sequence with textual metadata, and pure introspection over the closed set
//! of supported pixel layouts.

use vstd::prelude::*;

verus! {

/// A rectangular grid of samples backing one pixel layout.
///
/// `data` holds `width * height * channels` samples in row-major order,
/// where `channels` is fixed by the pixel layout that owns the raster.
#[derive(Clone, Debug)]
pub struct Raster<T> {
    pub width: u32,
    pub height: u32,
    pub data: Vec<T>,
}

impl<T> Raster<T> {
    /// The raster's declared dimensions match its backing storage exactly.
    pub open spec fn wf(self, channels: nat) -> bool {
        self.data@.len() == self.width as nat * self.height as nat * channels
    }
}

/// The closed union of supported pixel layouts: 8-bit and 16-bit integer
/// samples and 32-bit floating-point samples (held as raw bit patterns),
/// with 1 to 4 channels.
///
/// Any new layout must be added here and to every classification function
/// at the same time; all matches over this type are exhaustive.
#[derive(Clone, Debug)]
pub enum PixelBuffer {
    Luma8(Raster<u8>),
    LumaA8(Raster<u8>),
    Rgb8(Raster<u8>),
    Rgba8(Raster<u8>),
    Luma16(Raster<u16>),
    LumaA16(Raster<u16>),
    Rgb16(Raster<u16>),
    Rgba16(Raster<u16>),
    Rgb32F(Raster<u32>),
    Rgba32F(Raster<u32>),
}

impl PixelBuffer {
    /// Number of channels of this layout.
    pub open spec fn spec_channels(self) -> nat {
        match self {
            PixelBuffer::Luma8(_) => 1,
            PixelBuffer::LumaA8(_) => 2,
            PixelBuffer::Rgb8(_) => 3,
            PixelBuffer::Rgba8(_) => 4,
            PixelBuffer::Luma16(_) => 1,
            PixelBuffer::LumaA16(_) => 2,
            PixelBuffer::Rgb16(_) => 3,
            PixelBuffer::Rgba16(_) => 4,
            PixelBuffer::Rgb32F(_) => 3,
            PixelBuffer::Rgba32F(_) => 4,
        }
    }

    pub open spec fn spec_width(self) -> u32 {
        match self {
            PixelBuffer::Luma8(r) => r.width,
            PixelBuffer::LumaA8(r) => r.width,
            PixelBuffer::Rgb8(r) => r.width,
            PixelBuffer::Rgba8(r) => r.width,
            PixelBuffer::Luma16(r) => r.width,
            PixelBuffer::LumaA16(r) => r.width,
            PixelBuffer::Rgb16(r) => r.width,
            PixelBuffer::Rgba16(r) => r.width,
            PixelBuffer::Rgb32F(r) => r.width,
            PixelBuffer::Rgba32F(r) => r.width,
        }
    }

    pub open spec fn spec_height(self) -> u32 {
        match self {
            PixelBuffer::Luma8(r) => r.height,
            PixelBuffer::LumaA8(r) => r.height,
            PixelBuffer::Rgb8(r) => r.height,
            PixelBuffer::Rgba8(r) => r.height,
            PixelBuffer::Luma16(r) => r.height,
            PixelBuffer::LumaA16(r) => r.height,
            PixelBuffer::Rgb16(r) => r.height,
            PixelBuffer::Rgba16(r) => r.height,
            PixelBuffer::Rgb32F(r) => r.height,
            PixelBuffer::Rgba32F(r) => r.height,
        }
    }

    /// The buffer's declared dimensions match its backing storage exactly.
    pub open spec fn wf(self) -> bool {
        match self {
            PixelBuffer::Luma8(r) => r.wf(1),
            PixelBuffer::LumaA8(r) => r.wf(2),
            PixelBuffer::Rgb8(r) => r.wf(3),
            PixelBuffer::Rgba8(r) => r.wf(4),
            PixelBuffer::Luma16(r) => r.wf(1),
            PixelBuffer::LumaA16(r) => r.wf(2),
            PixelBuffer::Rgb16(r) => r.wf(3),
            PixelBuffer::Rgba16(r) => r.wf(4),
            PixelBuffer::Rgb32F(r) => r.wf(3),
            PixelBuffer::Rgba32F(r) => r.wf(4),
        }
    }

    pub fn width(&self) -> (w: u32)
        ensures
            w == self.spec_width(),
    {
        match self {
            PixelBuffer::Luma8(r) => r.width,
            PixelBuffer::LumaA8(r) => r.width,
            PixelBuffer::Rgb8(r) => r.width,
            PixelBuffer::Rgba8(r) => r.width,
            PixelBuffer::Luma16(r) => r.width,
            PixelBuffer::LumaA16(r) => r.width,
            PixelBuffer::Rgb16(r) => r.width,
            PixelBuffer::Rgba16(r) => r.width,
            PixelBuffer::Rgb32F(r) => r.width,
            PixelBuffer::Rgba32F(r) => r.width,
        }
    }

    pub fn height(&self) -> (h: u32)
        ensures
            h == self.spec_height(),
    {
        match self {
            PixelBuffer::Luma8(r) => r.height,
            PixelBuffer::LumaA8(r) => r.height,
            PixelBuffer::Rgb8(r) => r.height,
            PixelBuffer::Rgba8(r) => r.height,
            PixelBuffer::Luma16(r) => r.height,
            PixelBuffer::LumaA16(r) => r.height,
            PixelBuffer::Rgb16(r) => r.height,
            PixelBuffer::Rgba16(r) => r.height,
            PixelBuffer::Rgb32F(r) => r.height,
            PixelBuffer::Rgba32F(r) => r.height,
        }
    }
}

/// Alpha-channel presence, a pure fact of the pixel layout's variant tag.
pub trait HasAlpha {
    /// What `has_alpha` returns, stated at the specification level.
    spec fn alpha_spec(&self) -> bool;

    fn has_alpha(&self) -> (r: bool)
        ensures
            r == self.alpha_spec(),
    ;
}

impl HasAlpha for PixelBuffer {
    open spec fn alpha_spec(&self) -> bool {
        match self {
            PixelBuffer::Luma8(_) => false,
            PixelBuffer::LumaA8(_) => true,
            PixelBuffer::Rgb8(_) => false,
            PixelBuffer::Rgba8(_) => true,
            PixelBuffer::Luma16(_) => false,
            PixelBuffer::LumaA16(_) => true,
            PixelBuffer::Rgb16(_) => false,
            PixelBuffer::Rgba16(_) => true,
            PixelBuffer::Rgb32F(_) => false,
            PixelBuffer::Rgba32F(_) => true,
        }
    }

    fn has_alpha(&self) -> (r: bool) {
        match self {
            PixelBuffer::Luma8(_) => false,
            PixelBuffer::LumaA8(_) => true,
            PixelBuffer::Rgb8(_) => false,
            PixelBuffer::Rgba8(_) => true,
            PixelBuffer::Luma16(_) => false,
            PixelBuffer::LumaA16(_) => true,
            PixelBuffer::Rgb16(_) => false,
            PixelBuffer::Rgba16(_) => true,
            PixelBuffer::Rgb32F(_) => false,
            PixelBuffer::Rgba32F(_) => true,
        }
    }
}

/// Coarse numeric class of a pixel channel.
#[derive(Clone, Copy, Debug, PartialEq, Eq, Structural)]
pub enum ColorBits {
    U16,
    U8,
    F32,
}

/// Bit-depth classification, a pure fact of the pixel layout's variant tag.
pub trait GetColorBits {
    /// What `get_color_bits` returns, stated at the specification level.
    spec fn color_bits_spec(&self) -> ColorBits;

    fn get_color_bits(&self) -> (r: ColorBits)
        ensures
            r == self.color_bits_spec(),
    ;
}

impl GetColorBits for PixelBuffer {
    open spec fn color_bits_spec(&self) -> ColorBits {
        match self {
            PixelBuffer::Luma8(_) => ColorBits::U8,
            PixelBuffer::LumaA8(_) => ColorBits::U8,
            PixelBuffer::Rgb8(_) => ColorBits::U8,
            PixelBuffer::Rgba8(_) => ColorBits::U8,
            PixelBuffer::Luma16(_) => ColorBits::U16,
            PixelBuffer::LumaA16(_) => ColorBits::U16,
            PixelBuffer::Rgb16(_) => ColorBits::U16,
            PixelBuffer::Rgba16(_) => ColorBits::U16,
            PixelBuffer::Rgb32F(_) => ColorBits::F32,
            PixelBuffer::Rgba32F(_) => ColorBits::F32,
        }
    }

    fn get_color_bits(&self) -> (r: ColorBits) {
        match self {
            PixelBuffer::Luma8(_) => ColorBits::U8,
            PixelBuffer::LumaA8(_) => ColorBits::U8,
            PixelBuffer::Rgb8(_) => ColorBits::U8,
            PixelBuffer::Rgba8(_) => ColorBits::U8,
            PixelBuffer::Luma16(_) => ColorBits::U16,
            PixelBuffer::LumaA16(_) => ColorBits::U16,
            PixelBuffer::Rgb16(_) => ColorBits::U16,
            PixelBuffer::Rgba16(_) => ColorBits::U16,
            PixelBuffer::Rgb32F(_) => ColorBits::F32,
            PixelBuffer::Rgba32F(_) => ColorBits::F32,
        }
    }
}

/// One decoded frame plus its display delay in whole milliseconds.
#[derive(Clone, Debug)]
pub struct Image {
    pub image: PixelBuffer,
    pub delay: u64,
}

impl Image {
    pub open spec fn wf(self) -> bool {
        self.image.wf()
    }

    /// A still frame: zero delay.
    pub fn new(image: PixelBuffer) -> (r: Image)
        ensures
            r.image == image,
            r.delay == 0,
    {
        Image { image, delay: 0 }
    }

    /// A timed frame with an explicit delay in milliseconds.
    pub fn with_delay(image: PixelBuffer, delay: u64) -> (r: Image)
        ensures
            r.image == image,
            r.delay == delay,
    {
        Image { image, delay }
    }

    pub fn buffer(&self) -> (r: &PixelBuffer)
        ensures
            *r == self.image,
    {
        &self.image
    }

    pub fn buffer_mut(&mut self) -> (r: &mut PixelBuffer)
        ensures
            *r == old(self).image,
            final(self).image == *final(r),
            final(self).delay == old(self).delay,
    {
        &mut self.image
    }
}

/// Converts an animation delay given as a ratio of milliseconds
/// (`numer / denom`) to whole milliseconds, truncating.
///
/// Sub-millisecond precision is deliberately dropped; this is the accepted
/// lossy step when importing a timed playback frame.
pub fn delay_millis_from_ratio(numer: u32, denom: u32) -> (r: u64)
    requires
        denom > 0,
    ensures
        r == numer as int / denom as int,
{
    (numer / denom) as u64
}

/// An ordered frame sequence plus textual metadata.
///
/// Frame order is playback order; metadata order carries no meaning.
#[derive(Clone, Debug)]
pub struct ImageData {
    pub frames: Vec<Image>,
    pub metadata: Vec<(String, String)>,
}

impl ImageData {
    pub fn new(frames: Vec<Image>, metadata: Vec<(String, String)>) -> (r: ImageData)
        ensures
            r.frames == frames,
            r.metadata == metadata,
    {
        ImageData { frames, metadata }
    }
}

impl ImageData {
    /// A frame sequence with no metadata.
    pub fn from_frames(frames: Vec<Image>) -> (r: ImageData)
        ensures
            r.frames == frames,
            r.metadata@.len() == 0,
    {
        ImageData { frames, metadata: Vec::new() }
    }
}

/// Events a windowing front end exchanges with the queue that sequences
/// load, save and delete operations.
pub enum UserEvent {
    ErrorMessage(String),
    QueueLoad(String),
    QueueSave(String),
    QueueDelete(String),
    Output(Option<ImageData>),
    Exit,
}

} // verus!
