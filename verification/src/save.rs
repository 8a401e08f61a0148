//! Encoders behind the atomic multi-format writer: each save operation
//! serializes one frame or an ordered frame sequence into bytes for its
//! target container, and derives the uniquely named scratch path that the
//! publish step renames onto the target.

use vstd::prelude::*;
use vstd::string::StrSliceExecFns;
use vstd::string::StringExecFns;
use crate::convert::no_nan_samples;
use crate::convert::rgba8_spec;
use crate::convert::to_rgba8;
use crate::util::Image;
use crate::util::PixelBuffer;

verus! {

#[verifier::external_type_specification]
#[verifier::external_body]
pub struct ExImageError(image::ImageError);

#[verifier::external_type_specification]
#[verifier::external_body]
pub struct ExIoError(std::io::Error);

#[verifier::external_type_specification]
#[verifier::external_body]
pub struct ExWebpAnimationError(webp_animation::Error);

#[verifier::external_type_specification]
#[verifier::external_body]
pub struct ExWebPSimpleError(libwebp::error::WebPSimpleError);

#[verifier::external_type_specification]
#[verifier::external_body]
pub struct ExImageOutputFormat(image::ImageOutputFormat);

#[verifier::external_type_specification]
#[verifier::external_body]
pub struct ExDynamicImage(image::DynamicImage);

#[verifier::external_type_specification]
#[verifier::external_body]
pub struct ExFrame(image::Frame);

#[verifier::external_type_specification]
#[verifier::external_body]
pub struct ExEncoder(webp_animation::Encoder);

/// One failure tag per encoder backend, each carrying the originating cause.
#[derive(Debug)]
pub enum SaveError {
    Image(image::ImageError),
    Io(std::io::Error),
    WebpAnimation(webp_animation::Error),
    LibWebp(libwebp::error::WebPSimpleError),
}

impl From<image::ImageError> for SaveError {
    fn from(err: image::ImageError) -> (r: SaveError) {
        SaveError::Image(err)
    }
}

impl vstd::std_specs::convert::FromSpecImpl<image::ImageError> for SaveError {
    open spec fn obeys_from_spec() -> bool {
        true
    }

    open spec fn from_spec(err: image::ImageError) -> SaveError {
        SaveError::Image(err)
    }
}

impl From<std::io::Error> for SaveError {
    fn from(err: std::io::Error) -> (r: SaveError) {
        SaveError::Io(err)
    }
}

impl vstd::std_specs::convert::FromSpecImpl<std::io::Error> for SaveError {
    open spec fn obeys_from_spec() -> bool {
        true
    }

    open spec fn from_spec(err: std::io::Error) -> SaveError {
        SaveError::Io(err)
    }
}

impl From<webp_animation::Error> for SaveError {
    fn from(err: webp_animation::Error) -> (r: SaveError) {
        SaveError::WebpAnimation(err)
    }
}

impl vstd::std_specs::convert::FromSpecImpl<webp_animation::Error> for SaveError {
    open spec fn obeys_from_spec() -> bool {
        true
    }

    open spec fn from_spec(err: webp_animation::Error) -> SaveError {
        SaveError::WebpAnimation(err)
    }
}

impl From<libwebp::error::WebPSimpleError> for SaveError {
    fn from(err: libwebp::error::WebPSimpleError) -> (r: SaveError) {
        SaveError::LibWebp(err)
    }
}

impl vstd::std_specs::convert::FromSpecImpl<libwebp::error::WebPSimpleError> for SaveError {
    open spec fn obeys_from_spec() -> bool {
        true
    }

    open spec fn from_spec(err: libwebp::error::WebPSimpleError) -> SaveError {
        SaveError::LibWebp(err)
    }
}

// ---------------------------------------------------------------------------
// Scratch-path derivation
// ---------------------------------------------------------------------------

/// Length of the directory part of a path: everything up to and including
/// the last `/`, or nothing when the path has no `/`.
pub open spec fn dir_len(s: Seq<char>) -> int
    decreases s.len(),
{
    if s.len() == 0 {
        0
    } else if s[s.len() - 1] == '/' {
        s.len() as int
    } else {
        dir_len(s.drop_last())
    }
}

/// The directory part of a path, trailing `/` included.
pub open spec fn dir_of(s: Seq<char>) -> Seq<char> {
    s.take(dir_len(s))
}

/// The file-name part of a path: what follows the last `/`.
pub open spec fn file_of(s: Seq<char>) -> Seq<char> {
    s.skip(dir_len(s))
}

proof fn lemma_dir_len_bounds(s: Seq<char>)
    ensures
        0 <= dir_len(s) <= s.len(),
    decreases s.len(),
{
    if s.len() > 0 && s[s.len() - 1] != '/' {
        lemma_dir_len_bounds(s.drop_last());
    }
}

/// Appending a file name free of `/` to a path leaves its directory part
/// unchanged.
proof fn lemma_dir_len_append(d: Seq<char>, f: Seq<char>)
    requires
        forall|i: int| 0 <= i < f.len() ==> f[i] != '/',
    ensures
        dir_len(d + f) == dir_len(d),
    decreases f.len(),
{
    if f.len() == 0 {
        assert(d + f =~= d);
    } else {
        let g = f.drop_last();
        assert((d + f).drop_last() =~= d + g);
        assert((d + f)[(d + f).len() - 1] == f[f.len() - 1]);
        lemma_dir_len_append(d, g);
    }
}

/// Relies on uuid's hyphenated rendering of a fresh version-4 identifier:
/// 36 characters, hexadecimal digits and hyphens only. The identifier is
/// random, so nothing beyond its shape is assumed.
#[verifier::external_body]
fn fresh_name() -> (r: String)
    ensures
        r@.len() == 36,
        forall|i: int| 0 <= i < r@.len() ==> r@[i] != '/',
{
    uuid::Uuid::new_v4().to_string()
}

/// Derives the scratch path for a save: a freshly generated 36-character
/// name in the same directory as the target, so that the final rename stays
/// on one filesystem and is atomic.
pub fn get_temp_path(path: &str) -> (r: String)
    ensures
        dir_of(r@) == dir_of(path@),
        file_of(r@).len() == 36,
        forall|i: int| 0 <= i < file_of(r@).len() ==> file_of(r@)[i] != '/',
{
    let name = fresh_name();
    let n = path.unicode_len();
    let mut cut: usize = n;
    proof {
        lemma_dir_len_bounds(path@);
        assert(path@.take(n as int) =~= path@);
    }
    loop
        invariant
            cut <= n,
            n == path@.len(),
            dir_len(path@) == dir_len(path@.take(cut as int)),
        ensures
            cut <= n,
            cut as int == dir_len(path@),
        decreases cut,
    {
        if cut == 0 {
            proof {
                assert(path@.take(0) =~= Seq::<char>::empty());
            }
            break ;
        }
        let c = path.get_char(cut - 1);
        if c == '/' {
            proof {
                let t = path@.take(cut as int);
                assert(t[t.len() - 1] == path@[cut as int - 1]);
            }
            break ;
        }
        proof {
            let t = path@.take(cut as int);
            assert(t.drop_last() =~= path@.take(cut as int - 1));
        }
        cut = cut - 1;
    }
    let dir = path.substring_char(0, cut);
    let mut out = dir.to_owned();
    out.append(name.as_str());
    proof {
        assert(out@.take(cut as int) =~= path@.take(cut as int));
        assert(out@ =~= path@.take(cut as int) + name@);
        lemma_dir_len_append(path@.take(cut as int), name@);
        assert(dir_len(out@) == cut);
        assert(file_of(out@) =~= name@);
    }
    out
}

// ---------------------------------------------------------------------------
// Still-image encoders
// ---------------------------------------------------------------------------

/// A sequence of 8-bit samples as unbounded integers.
pub open spec fn int_samples8(s: Seq<u8>) -> Seq<int> {
    Seq::new(s.len(), |i: int| s[i] as int)
}

/// A sequence of 16-bit samples as unbounded integers.
pub open spec fn int_samples16(s: Seq<u16>) -> Seq<int> {
    Seq::new(s.len(), |i: int| s[i] as int)
}

/// A sequence of 32-bit samples (float bit patterns) as unbounded integers.
pub open spec fn int_samples32(s: Seq<u32>) -> Seq<int> {
    Seq::new(s.len(), |i: int| s[i] as int)
}

/// The contents of a pixel buffer: its layout's position in the model's
/// variant order, its width, its height, and its samples as unbounded
/// integers (bit patterns for the float layouts).
pub open spec fn buffer_view(b: PixelBuffer) -> (int, int, int, Seq<int>) {
    match b {
        PixelBuffer::Luma8(r) => (0, r.width as int, r.height as int, int_samples8(r.data@)),
        PixelBuffer::LumaA8(r) => (1, r.width as int, r.height as int, int_samples8(r.data@)),
        PixelBuffer::Rgb8(r) => (2, r.width as int, r.height as int, int_samples8(r.data@)),
        PixelBuffer::Rgba8(r) => (3, r.width as int, r.height as int, int_samples8(r.data@)),
        PixelBuffer::Luma16(r) => (4, r.width as int, r.height as int, int_samples16(r.data@)),
        PixelBuffer::LumaA16(r) => (5, r.width as int, r.height as int, int_samples16(r.data@)),
        PixelBuffer::Rgb16(r) => (6, r.width as int, r.height as int, int_samples16(r.data@)),
        PixelBuffer::Rgba16(r) => (7, r.width as int, r.height as int, int_samples16(r.data@)),
        PixelBuffer::Rgb32F(r) => (8, r.width as int, r.height as int, int_samples32(r.data@)),
        PixelBuffer::Rgba32F(r) => (9, r.width as int, r.height as int, int_samples32(r.data@)),
    }
}

/// Name for the contents a codec-side image value carries: the layout,
/// dimensions and samples it was built from, in `buffer_view`'s shape.
pub uninterp spec fn dyn_view(img: image::DynamicImage) -> (int, int, int, Seq<int>);

/// Copies a vector of plain samples.
fn copy_vec<T: Copy>(v: &Vec<T>) -> (r: Vec<T>)
    ensures
        r@ == v@,
{
    let mut r: Vec<T> = Vec::new();
    for i in 0..v.len()
        invariant
            r@ =~= v@.take(i as int),
    {
        r.push(v[i]);
    }
    proof {
        assert(v@.take(v@.len() as int) =~= v@);
    }
    r
}

/// Relies on image's `DynamicImage::ImageLuma8` wrapping raw 8-bit luma samples.
#[verifier::external_body]
fn dyn_luma8(width: u32, height: u32, data: Vec<u8>) -> (r: image::DynamicImage)
    requires
        data@.len() == (width as nat) * (height as nat) * 1,
    ensures
        dyn_view(r) == (0int, width as int, height as int, int_samples8(data@)),
{
    image::DynamicImage::ImageLuma8(image::ImageBuffer::from_raw(width, height, data).unwrap())
}

/// Relies on image's `DynamicImage::ImageLumaA8` wrapping raw 8-bit luma-alpha samples.
#[verifier::external_body]
fn dyn_luma_a8(width: u32, height: u32, data: Vec<u8>) -> (r: image::DynamicImage)
    requires
        data@.len() == (width as nat) * (height as nat) * 2,
    ensures
        dyn_view(r) == (1int, width as int, height as int, int_samples8(data@)),
{
    image::DynamicImage::ImageLumaA8(image::ImageBuffer::from_raw(width, height, data).unwrap())
}

/// Relies on image's `DynamicImage::ImageRgb8` wrapping raw 8-bit RGB samples.
#[verifier::external_body]
fn dyn_rgb8(width: u32, height: u32, data: Vec<u8>) -> (r: image::DynamicImage)
    requires
        data@.len() == (width as nat) * (height as nat) * 3,
    ensures
        dyn_view(r) == (2int, width as int, height as int, int_samples8(data@)),
{
    image::DynamicImage::ImageRgb8(image::ImageBuffer::from_raw(width, height, data).unwrap())
}

/// Relies on image's `DynamicImage::ImageRgba8` wrapping raw 8-bit RGBA samples.
#[verifier::external_body]
fn dyn_rgba8(width: u32, height: u32, data: Vec<u8>) -> (r: image::DynamicImage)
    requires
        data@.len() == (width as nat) * (height as nat) * 4,
    ensures
        dyn_view(r) == (3int, width as int, height as int, int_samples8(data@)),
{
    image::DynamicImage::ImageRgba8(image::ImageBuffer::from_raw(width, height, data).unwrap())
}

/// Relies on image's `DynamicImage::ImageLuma16` wrapping raw 16-bit luma samples.
#[verifier::external_body]
fn dyn_luma16(width: u32, height: u32, data: Vec<u16>) -> (r: image::DynamicImage)
    requires
        data@.len() == (width as nat) * (height as nat) * 1,
    ensures
        dyn_view(r) == (4int, width as int, height as int, int_samples16(data@)),
{
    image::DynamicImage::ImageLuma16(image::ImageBuffer::from_raw(width, height, data).unwrap())
}

/// Relies on image's `DynamicImage::ImageLumaA16` wrapping raw 16-bit luma-alpha samples.
#[verifier::external_body]
fn dyn_luma_a16(width: u32, height: u32, data: Vec<u16>) -> (r: image::DynamicImage)
    requires
        data@.len() == (width as nat) * (height as nat) * 2,
    ensures
        dyn_view(r) == (5int, width as int, height as int, int_samples16(data@)),
{
    image::DynamicImage::ImageLumaA16(image::ImageBuffer::from_raw(width, height, data).unwrap())
}

/// Relies on image's `DynamicImage::ImageRgb16` wrapping raw 16-bit RGB samples.
#[verifier::external_body]
fn dyn_rgb16(width: u32, height: u32, data: Vec<u16>) -> (r: image::DynamicImage)
    requires
        data@.len() == (width as nat) * (height as nat) * 3,
    ensures
        dyn_view(r) == (6int, width as int, height as int, int_samples16(data@)),
{
    image::DynamicImage::ImageRgb16(image::ImageBuffer::from_raw(width, height, data).unwrap())
}

/// Relies on image's `DynamicImage::ImageRgba16` wrapping raw 16-bit RGBA samples.
#[verifier::external_body]
fn dyn_rgba16(width: u32, height: u32, data: Vec<u16>) -> (r: image::DynamicImage)
    requires
        data@.len() == (width as nat) * (height as nat) * 4,
    ensures
        dyn_view(r) == (7int, width as int, height as int, int_samples16(data@)),
{
    image::DynamicImage::ImageRgba16(image::ImageBuffer::from_raw(width, height, data).unwrap())
}

/// Relies on image's `DynamicImage::ImageRgb32F` wrapping three-channel
/// floating-point samples, given here as their raw bit patterns.
#[verifier::external_body]
fn dyn_rgb32f(width: u32, height: u32, data: Vec<u32>) -> (r: image::DynamicImage)
    requires
        data@.len() == (width as nat) * (height as nat) * 3,
    ensures
        dyn_view(r) == (8int, width as int, height as int, int_samples32(data@)),
{
    let buf = image::Rgb32FImage::from_raw(width, height, bytemuck::pod_collect_to_vec(
        data.as_slice(),
    )).unwrap();
    image::DynamicImage::ImageRgb32F(buf)
}

/// Relies on image's `DynamicImage::ImageRgba32F` wrapping four-channel
/// floating-point samples, given here as their raw bit patterns.
#[verifier::external_body]
fn dyn_rgba32f(width: u32, height: u32, data: Vec<u32>) -> (r: image::DynamicImage)
    requires
        data@.len() == (width as nat) * (height as nat) * 4,
    ensures
        dyn_view(r) == (9int, width as int, height as int, int_samples32(data@)),
{
    let buf = image::Rgba32FImage::from_raw(width, height, bytemuck::pod_collect_to_vec(
        data.as_slice(),
    )).unwrap();
    image::DynamicImage::ImageRgba32F(buf)
}

/// Rebuilds the codec-side image value for a pixel buffer, variant by variant.
fn to_dynamic(b: &PixelBuffer) -> (r: image::DynamicImage)
    requires
        b.wf(),
    ensures
        dyn_view(r) == buffer_view(*b),
{
    match b {
        PixelBuffer::Luma8(r) => dyn_luma8(r.width, r.height, copy_vec(&r.data)),
        PixelBuffer::LumaA8(r) => dyn_luma_a8(r.width, r.height, copy_vec(&r.data)),
        PixelBuffer::Rgb8(r) => dyn_rgb8(r.width, r.height, copy_vec(&r.data)),
        PixelBuffer::Rgba8(r) => dyn_rgba8(r.width, r.height, copy_vec(&r.data)),
        PixelBuffer::Luma16(r) => dyn_luma16(r.width, r.height, copy_vec(&r.data)),
        PixelBuffer::LumaA16(r) => dyn_luma_a16(r.width, r.height, copy_vec(&r.data)),
        PixelBuffer::Rgb16(r) => dyn_rgb16(r.width, r.height, copy_vec(&r.data)),
        PixelBuffer::Rgba16(r) => dyn_rgba16(r.width, r.height, copy_vec(&r.data)),
        PixelBuffer::Rgb32F(r) => dyn_rgb32f(r.width, r.height, copy_vec(&r.data)),
        PixelBuffer::Rgba32F(r) => dyn_rgba32f(r.width, r.height, copy_vec(&r.data)),
    }
}

/// Name for the still-image encoder's result on an image with the given
/// contents in the given output format: `Some` of the encoded container
/// bytes where the codec supports the combination, `None` where it reports
/// an error. The encoders write no timestamps or randomness, so the result
/// is a function of the contents and the format alone.
pub uninterp spec fn format_encoding(
    view: (int, int, int, Seq<int>),
    format: image::ImageOutputFormat,
) -> Option<Seq<u8>>;

/// Relies on image's `DynamicImage::write_to`, which encodes the still image
/// into the requested output format, or reports a codec error.
#[verifier::external_body]
fn write_format(img: &image::DynamicImage, format: image::ImageOutputFormat) -> (r: Result<
    Vec<u8>,
    image::ImageError,
>)
    ensures
        r is Ok <==> format_encoding(dyn_view(*img), format) is Some,
        r matches Ok(b) ==> format_encoding(dyn_view(*img), format) == Some(b@),
{
    let mut cursor = std::io::Cursor::new(Vec::new());
    match img.write_to(&mut cursor, format) {
        Ok(()) => Ok(cursor.into_inner()),
        Err(e) => Err(e),
    }
}

/// Name for the TIFF encoder's result on an image with the given contents:
/// `Some` of the container bytes recording exactly those dimensions, that
/// color layout and those raw samples, `None` where the codec reports the
/// layout unsupported or fails. A function of the contents alone.
pub uninterp spec fn tiff_encoding(view: (int, int, int, Seq<int>)) -> Option<Seq<u8>>;

/// Relies on image's `TiffEncoder::encode` writing one uncompressed TIFF of
/// the image's raw samples with its exact dimensions and color layout, or
/// reporting a codec error.
#[verifier::external_body]
fn tiff_encode(img: &image::DynamicImage) -> (r: Result<Vec<u8>, image::ImageError>)
    ensures
        r is Ok <==> tiff_encoding(dyn_view(*img)) is Some,
        r matches Ok(b) ==> tiff_encoding(dyn_view(*img)) == Some(b@),
{
    let mut cursor = std::io::Cursor::new(Vec::new());
    let encoder = image::codecs::tiff::TiffEncoder::new(&mut cursor);
    match encoder.encode(img.as_bytes(), img.width(), img.height(), img.color()) {
        Ok(()) => Ok(cursor.into_inner()),
        Err(e) => Err(e),
    }
}

/// Serializes one frame in the explicitly chosen output format.
/// Format validity for the frame's layout is the codec's concern: every
/// failure it reports comes back as a codec failure tag.
pub fn encode_with_format(image: &Image, format: image::ImageOutputFormat) -> (r: Result<
    Vec<u8>,
    SaveError,
>)
    requires
        image.wf(),
    ensures
        r is Ok <==> format_encoding(buffer_view(image.image), format) is Some,
        r matches Ok(b) ==> format_encoding(buffer_view(image.image), format) == Some(b@),
        r matches Err(e) ==> e is Image,
{
    let img = to_dynamic(&image.image);
    match write_format(&img, format) {
        Ok(bytes) => Ok(bytes),
        Err(e) => Err(SaveError::Image(e)),
    }
}

/// Serializes one frame as an uncompressed TIFF, passing the exact color
/// layout of the frame's pixel buffer to the encoder.
pub fn encode_tiff(image: &Image) -> (r: Result<Vec<u8>, SaveError>)
    requires
        image.wf(),
    ensures
        r is Ok <==> tiff_encoding(buffer_view(image.image)) is Some,
        r matches Ok(b) ==> tiff_encoding(buffer_view(image.image)) == Some(b@),
        r matches Err(e) ==> e is Image,
{
    let img = to_dynamic(&image.image);
    match tiff_encode(&img) {
        Ok(bytes) => Ok(bytes),
        Err(e) => Err(SaveError::Image(e)),
    }
}

// ---------------------------------------------------------------------------
// GIF
// ---------------------------------------------------------------------------

/// Name for the contents of a codec-side animation frame: its dimensions,
/// its RGBA bytes, its delay in whole milliseconds, and its (left, top)
/// placement offsets.
pub uninterp spec fn frame_contents(f: image::Frame) -> (int, int, Seq<u8>, int, int, int);

/// A frame's delay as the codec stores it: whole milliseconds, saturated to
/// the representable range.
pub open spec fn saturated_delay(delay: u64) -> int {
    if delay <= u32::MAX as u64 {
        delay as int
    } else {
        u32::MAX as int
    }
}

/// The codec frame an image converts to: its buffer's dimensions, its RGBA8
/// expansion, its delay saturated to whole milliseconds, and zero offsets.
pub open spec fn frame_view(image: Image) -> (int, int, Seq<u8>, int, int, int) {
    (
        image.image.spec_width() as int,
        image.image.spec_height() as int,
        rgba8_spec(image.image),
        saturated_delay(image.delay),
        0,
        0,
    )
}

/// The codec frames a whole sequence converts to, in playback order.
pub open spec fn frames_view(images: Seq<Image>) -> Seq<(int, int, Seq<u8>, int, int, int)> {
    Seq::new(images.len(), |k: int| frame_view(images[k]))
}

/// Relies on image's `Frame::from_parts` with offsets (0, 0) and a delay
/// built by `Delay::from_saturating_duration` from whole milliseconds: the
/// frame holds exactly the given RGBA buffer at the given dimensions, the
/// given delay, saturated, and zero offsets.
#[verifier::external_body]
fn make_frame(width: u32, height: u32, rgba: Vec<u8>, delay_ms: u64) -> (r: image::Frame)
    requires
        rgba@.len() == 4 * (width as nat) * (height as nat),
    ensures
        frame_contents(r) == (
            width as int,
            height as int,
            rgba@,
            saturated_delay(delay_ms),
            0int,
            0int,
        ),
{
    let buffer = image::ImageBuffer::from_raw(width, height, rgba).unwrap();
    let delay = image::Delay::from_saturating_duration(std::time::Duration::from_millis(delay_ms));
    image::Frame::from_parts(buffer, 0, 0, delay)
}

/// Converts each frame of a sequence to the codec's frame type, preserving
/// its pixel content (expanded to RGBA8) and its per-frame delay.
pub fn frames_of_images(images: &Vec<Image>) -> (r: Vec<image::Frame>)
    requires
        forall|k: int| 0 <= k < images@.len() ==> (#[trigger] images@[k]).wf(),
        forall|k: int| 0 <= k < images@.len() ==> no_nan_samples((#[trigger] images@[k]).image),
    ensures
        r@.len() == images@.len(),
        forall|k: int|
            0 <= k < r@.len() ==> frame_contents(#[trigger] r@[k]) == frame_view(images@[k]),
{
    let mut r: Vec<image::Frame> = Vec::new();
    for k in 0..images.len()
        invariant
            forall|j: int| 0 <= j < images@.len() ==> (#[trigger] images@[j]).wf(),
            forall|j: int|
                0 <= j < images@.len() ==> no_nan_samples((#[trigger] images@[j]).image),
            r@.len() == k,
            forall|j: int|
                0 <= j < k ==> frame_contents(#[trigger] r@[j]) == frame_view(images@[j]),
    {
        let image = &images[k];
        let rgba = to_rgba8(&image.image);
        let w = image.image.width();
        let h = image.image.height();
        r.push(make_frame(w, h, rgba, image.delay));
    }
    r
}

/// Name for the GIF encoder's result on an ordered sequence of frames with
/// the given contents: `Some` of the multi-frame container bytes, `None`
/// where the codec reports an error (an oversize frame, a codec failure).
/// The encoder's palette quantization is deterministic, so the result is a
/// function of the frames' contents alone.
pub uninterp spec fn gif_encoding(frames: Seq<(int, int, Seq<u8>, int, int, int)>) -> Option<
    Seq<u8>,
>;

/// Relies on image's `GifEncoder::encode_frames` writing the given frames,
/// each with its own delay, as one multi-frame GIF, or reporting a codec
/// error.
#[verifier::external_body]
fn gif_encode(frames: Vec<image::Frame>) -> (r: Result<Vec<u8>, image::ImageError>)
    ensures
        r is Ok <==> gif_encoding(
            frames@.map(|k: int, f: image::Frame| frame_contents(f)),
        ) is Some,
        r matches Ok(b) ==> gif_encoding(
            frames@.map(|k: int, f: image::Frame| frame_contents(f)),
        ) == Some(b@),
{
    let mut cursor = std::io::Cursor::new(Vec::new());
    let mut encoder = image::codecs::gif::GifEncoder::new(&mut cursor);
    let outcome = encoder.encode_frames(frames);
    drop(encoder);
    match outcome {
        Ok(()) => Ok(cursor.into_inner()),
        Err(e) => Err(e),
    }
}

/// Serializes an ordered frame sequence as one animated GIF; every frame
/// keeps its own delay through the conversion.
pub fn encode_gif(images: Vec<Image>) -> (r: Result<Vec<u8>, SaveError>)
    requires
        forall|k: int| 0 <= k < images@.len() ==> (#[trigger] images@[k]).wf(),
        forall|k: int| 0 <= k < images@.len() ==> no_nan_samples((#[trigger] images@[k]).image),
    ensures
        r is Ok <==> gif_encoding(frames_view(images@)) is Some,
        r matches Ok(b) ==> gif_encoding(frames_view(images@)) == Some(b@),
        r matches Err(e) ==> e is Image,
{
    let frames = frames_of_images(&images);
    proof {
        assert(frames@.map(|k: int, f: image::Frame| frame_contents(f)) =~= frames_view(
            images@,
        ));
    }
    match gif_encode(frames) {
        Ok(bytes) => Ok(bytes),
        Err(e) => Err(SaveError::Image(e)),
    }
}

// ---------------------------------------------------------------------------
// Animated lossless WEBP
// ---------------------------------------------------------------------------

/// Milliseconds of delay accumulated by the first `n` frames of a sequence.
pub open spec fn delay_sum(frames: Seq<Image>, n: int) -> int
    decreases n,
{
    if n <= 0 {
        0
    } else {
        delay_sum(frames, n - 1) + frames[n - 1].delay
    }
}

/// The frames an animated-WEBP save hands the animation encoder: frame `k`
/// expanded to RGBA8, at a timestamp equal to the summed delays of the
/// frames before it.
pub open spec fn timeline(frames: Seq<Image>) -> Seq<(Seq<u8>, int)> {
    Seq::new(frames.len(), |k: int| (rgba8_spec(frames[k].image), delay_sum(frames, k)))
}

/// Accumulated delay never decreases as frames are appended.
pub proof fn lemma_delay_sum_mono(frames: Seq<Image>, a: int, b: int)
    requires
        0 <= a <= b,
    ensures
        delay_sum(frames, a) <= delay_sum(frames, b),
    decreases b,
{
    if a < b {
        lemma_delay_sum_mono(frames, a, b - 1);
    }
}

/// Name for the frames an animation encoder holds: each with its RGBA bytes
/// and the timestamp in milliseconds it was added at.
pub uninterp spec fn anim_frames(e: webp_animation::Encoder) -> Seq<(Seq<u8>, int)>;

/// Name for the canvas dimensions an animation encoder was created with.
pub uninterp spec fn anim_canvas(e: webp_animation::Encoder) -> (int, int);

/// Name for whether an animation encoder is configured to encode losslessly
/// at the highest quality setting with the slowest, best compression method.
pub uninterp spec fn anim_lossless_best(e: webp_animation::Encoder) -> bool;

/// Name for the timestamp of the last frame an animation encoder accepted,
/// or -1 while it holds none.
pub uninterp spec fn anim_prev_ts(e: webp_animation::Encoder) -> int;

/// Name for the container bytes a lossless-best-configured animation
/// encoder assembles: a function of its canvas, its accepted frames and the
/// final timestamp (the animation's total duration) alone. Only successful
/// assembly is named: the encoder can also fail for want of memory.
pub uninterp spec fn anim_assembled(
    canvas: (int, int),
    frames: Seq<(Seq<u8>, int)>,
    final_ts: int,
) -> Seq<u8>;

/// Relies on webp-animation's `Encoder::new_with_options`, configured for
/// lossless encoding at the highest quality setting and the slowest, best
/// compression method. A new encoder holds no frames.
#[verifier::external_body]
fn webp_anim_new(width: u32, height: u32) -> (r: Result<
    webp_animation::Encoder,
    webp_animation::Error,
>)
    ensures
        match r {
            Ok(e) => anim_frames(e) == Seq::<(Seq<u8>, int)>::empty() && anim_canvas(e) == (
                width as int,
                height as int,
            ) && anim_lossless_best(e) && anim_prev_ts(e) == -1,
            Err(_) => true,
        },
{
    let config = webp_animation::EncodingConfig {
        encoding_type: webp_animation::EncodingType::Lossless,
        quality: 100u8.into(),
        method: 6,
    };
    let options = webp_animation::EncoderOptions {
        encoding_config: Some(config),
        ..Default::default()
    };
    webp_animation::Encoder::new_with_options((width, height), options)
}

/// Relies on webp-animation's `Encoder::add_frame`: on success the frame's
/// RGBA bytes are appended at the given timestamp and nothing else changes;
/// a buffer whose length differs from the canvas's RGBA size, or a
/// timestamp not above the previous one, is rejected before the codec runs;
/// the codec itself can also fail, leaving the frame appended or not.
#[verifier::external_body]
fn webp_anim_add(
    enc: &mut webp_animation::Encoder,
    data: &Vec<u8>,
    timestamp_ms: i32,
) -> (r: Result<(), webp_animation::Error>)
    ensures
        r is Ok ==> anim_frames(*final(enc)) == anim_frames(*old(enc)).push(
            (data@, timestamp_ms as int),
        ) && anim_canvas(*final(enc)) == anim_canvas(*old(enc)) && anim_lossless_best(
            *final(enc),
        ) == anim_lossless_best(*old(enc)) && anim_prev_ts(*final(enc)) == timestamp_ms as int,
        data@.len() != 4 * anim_canvas(*old(enc)).0 * anim_canvas(*old(enc)).1 ==> r is Err,
        (timestamp_ms as int) <= anim_prev_ts(*old(enc)) ==> r is Err,
        r is Err ==> anim_frames(*final(enc)) == anim_frames(*old(enc)) || anim_frames(
            *final(enc),
        ) == anim_frames(*old(enc)).push((data@, timestamp_ms as int)),
{
    enc.add_frame(data.as_slice(), timestamp_ms)
}

/// Relies on webp-animation's `Encoder::finalize`, which closes the stream
/// with the given total duration and assembles the WEBP container bytes;
/// an encoder holding no frames, or a final timestamp below the last
/// frame's, is rejected.
#[verifier::external_body]
fn webp_anim_finalize(enc: webp_animation::Encoder, timestamp_ms: i32) -> (r: Result<
    Vec<u8>,
    webp_animation::Error,
>)
    ensures
        r matches Ok(b) ==> anim_lossless_best(enc) ==> b@ == anim_assembled(
            anim_canvas(enc),
            anim_frames(enc),
            timestamp_ms as int,
        ),
        anim_frames(enc).len() == 0 ==> r is Err,
        (timestamp_ms as int) < anim_prev_ts(enc) ==> r is Err,
{
    match enc.finalize(timestamp_ms) {
        Ok(data) => Ok(data.to_vec()),
        Err(e) => Err(e),
    }
}

/// Feeds every frame of the sequence to the animation encoder: frame `k` is
/// added at a timestamp equal to the summed delays of the frames before it,
/// and the returned total equals the sum of all delays.
pub fn add_frames(enc: &mut webp_animation::Encoder, images: &Vec<Image>) -> (r: Result<
    i32,
    webp_animation::Error,
>)
    requires
        forall|k: int| 0 <= k < images@.len() ==> (#[trigger] images@[k]).wf(),
        forall|k: int| 0 <= k < images@.len() ==> no_nan_samples((#[trigger] images@[k]).image),
        delay_sum(images@, images@.len() as int) <= i32::MAX,
    ensures
        match r {
            Ok(total) => anim_frames(*final(enc)) == anim_frames(*old(enc)) + timeline(images@)
                && total == delay_sum(images@, images@.len() as int) && anim_canvas(*final(enc))
                == anim_canvas(*old(enc)) && anim_lossless_best(*final(enc)) == anim_lossless_best(
                *old(enc),
            ) && (forall|j: int|
                0 <= j < images@.len() ==> rgba8_spec((#[trigger] images@[j]).image).len() == 4
                    * anim_canvas(*old(enc)).0 * anim_canvas(*old(enc)).1),
            Err(_) => exists|m: int|
                0 <= m <= images@.len() && anim_frames(*final(enc)) == anim_frames(*old(enc))
                    + timeline(images@).take(m),
        },
{
    let mut timestamp: i32 = 0;
    let n = images.len();
    for k in 0..n
        invariant
            n == images@.len(),
            forall|j: int| 0 <= j < images@.len() ==> (#[trigger] images@[j]).wf(),
            forall|j: int|
                0 <= j < images@.len() ==> no_nan_samples((#[trigger] images@[j]).image),
            delay_sum(images@, images@.len() as int) <= i32::MAX,
            timestamp == delay_sum(images@, k as int),
            anim_frames(*enc) == anim_frames(*old(enc)) + timeline(images@).take(k as int),
            anim_canvas(*enc) == anim_canvas(*old(enc)),
            anim_lossless_best(*enc) == anim_lossless_best(*old(enc)),
            forall|j: int|
                0 <= j < k ==> rgba8_spec((#[trigger] images@[j]).image).len() == 4 * anim_canvas(
                    *old(enc),
                ).0 * anim_canvas(*old(enc)).1,
    {
        let image = &images[k];
        let rgba = to_rgba8(&image.image);
        proof {
            assert(timeline(images@).take(k + 1) =~= timeline(images@).take(k as int).push(
                (rgba8_spec(images@[k as int].image), delay_sum(images@, k as int)),
            ));
        }
        match webp_anim_add(enc, &rgba, timestamp) {
            Ok(()) => (),
            Err(e) => {
                proof {
                    if anim_frames(*enc) == anim_frames(*old(enc)) + timeline(images@).take(
                        k as int,
                    ) {
                        assert(0 <= k as int <= images@.len());
                    } else {
                        assert(anim_frames(*enc) =~= anim_frames(*old(enc)) + timeline(
                            images@,
                        ).take(k + 1));
                    }
                }
                return Err(e);
            },
        }
        proof {
            assert(anim_frames(*enc) =~= anim_frames(*old(enc)) + timeline(images@).take(k + 1));
            lemma_delay_sum_mono(images@, 0, k as int);
            lemma_delay_sum_mono(images@, k + 1, images@.len() as int);
        }
        timestamp = timestamp + (image.delay as i32);
    }
    proof {
        assert(timeline(images@).take(images@.len() as int) =~= timeline(images@));
    }
    Ok(timestamp)
}

/// Serializes an ordered, non-empty frame sequence as one lossless animated
/// WEBP: dimensions come from the first frame, frame `k` enters at the
/// summed delays of the frames before it, and the stream is finalized with
/// the total duration, the sum of all delays.
pub fn encode_webp_animation(images: &Vec<Image>) -> (r: Result<Vec<u8>, SaveError>)
    requires
        images@.len() > 0,
        forall|k: int| 0 <= k < images@.len() ==> (#[trigger] images@[k]).wf(),
        forall|k: int| 0 <= k < images@.len() ==> no_nan_samples((#[trigger] images@[k]).image),
        delay_sum(images@, images@.len() as int) <= i32::MAX,
    ensures
        r matches Err(e) ==> e is WebpAnimation,
        r matches Ok(b) ==> b@ == anim_assembled(
            (images@[0].image.spec_width() as int, images@[0].image.spec_height() as int),
            timeline(images@),
            delay_sum(images@, images@.len() as int),
        ) && (forall|k: int|
            0 <= k < images@.len() ==> rgba8_spec((#[trigger] images@[k]).image).len() == 4 * (
            images@[0].image.spec_width() as int) * (images@[0].image.spec_height() as int)),
{
    let first = &images[0];
    let w = first.image.width();
    let h = first.image.height();
    let mut enc = match webp_anim_new(w, h) {
        Ok(e) => e,
        Err(e) => {
            return Err(SaveError::WebpAnimation(e));
        },
    };
    let total = match add_frames(&mut enc, images) {
        Ok(t) => t,
        Err(e) => {
            return Err(SaveError::WebpAnimation(e));
        },
    };
    proof {
        assert(anim_frames(enc) =~= timeline(images@));
    }
    match webp_anim_finalize(enc, total) {
        Ok(bytes) => Ok(bytes),
        Err(e) => Err(SaveError::WebpAnimation(e)),
    }
}

// ---------------------------------------------------------------------------
// Static lossless WEBP
// ---------------------------------------------------------------------------

/// Name for libwebp's lossless encoding of RGBA rows with the given
/// dimensions and a row stride of `width * 4` bytes: the container bytes, a
/// function of the pixels and dimensions alone. Only success is named: the
/// encoder can also fail for want of memory.
pub uninterp spec fn webp_lossless_encoding(rgba: Seq<u8>, width: int, height: int) -> Seq<u8>;

/// Relies on libwebp's `WebPEncodeLosslessRGBA` with a row stride of
/// `width * 4` bytes: lossless encoding of the raw RGBA rows, or an error.
#[verifier::external_body]
fn webp_encode_lossless(rgba: &Vec<u8>, width: u32, height: u32) -> (r: Result<
    Vec<u8>,
    libwebp::error::WebPSimpleError,
>)
    requires
        rgba@.len() == 4 * (width as nat) * (height as nat),
        4 * width <= i32::MAX,
        height <= i32::MAX,
    ensures
        r matches Ok(b) ==> b@ == webp_lossless_encoding(rgba@, width as int, height as int),
{
    match libwebp::WebPEncodeLosslessRGBA(rgba.as_slice(), width, height, width * 4) {
        Ok(data) => Ok(data.to_vec()),
        Err(e) => Err(e),
    }
}

/// Serializes one frame as a lossless static WEBP: the frame is expanded to
/// 8-bit RGBA and encoded with a row stride of `width * 4` bytes.
pub fn encode_webp(image: &Image) -> (r: Result<Vec<u8>, SaveError>)
    requires
        image.wf(),
        no_nan_samples(image.image),
        4 * image.image.spec_width() <= i32::MAX,
        image.image.spec_height() <= i32::MAX,
    ensures
        r matches Ok(b) ==> b@ == webp_lossless_encoding(
            rgba8_spec(image.image),
            image.image.spec_width() as int,
            image.image.spec_height() as int,
        ),
        r matches Err(e) ==> e is LibWebp,
{
    let rgba = to_rgba8(&image.image);
    let w = image.image.width();
    let h = image.image.height();
    match webp_encode_lossless(&rgba, w, h) {
        Ok(bytes) => Ok(bytes),
        Err(e) => Err(SaveError::LibWebp(e)),
    }
}

} // verus!
