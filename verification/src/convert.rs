//! Conversion of every supported pixel layout to 8-bit-per-channel RGBA,
//! matching the conversions the image codec applies.

use vstd::prelude::*;
use crate::util::PixelBuffer;

verus! {

/// Narrowing of a 16-bit channel to 8 bits: `round(c * 255 / 65535)`,
/// in the exact integer form the image codec uses.
pub open spec fn chan8_of_chan16(c: u16) -> u8 {
    (((c as u32) + 128) / 257) as u8
}

fn narrow_chan16(c: u16) -> (r: u8)
    ensures
        r == chan8_of_chan16(c),
{
    ((c as u32 + 128) / 257) as u8
}

/// Name for the image codec's floating-point-to-8-bit channel conversion
/// (clamp to the unit interval, scale to 255, round), applied to the raw
/// bit pattern of a 32-bit sample. A function of the bit pattern alone.
/// It has no value for NaN bit patterns: the codec's rounding cast aborts
/// on NaN, so every contract that applies this name excludes them.
pub uninterp spec fn chan8_of_float_bits(bits: u32) -> u8;

/// Whether a 32-bit pattern encodes a NaN: exponent bits all ones and a
/// non-zero mantissa.
pub open spec fn is_nan_bits(b: u32) -> bool {
    (b & 0x7f80_0000) == 0x7f80_0000 && (b & 0x007f_ffff) != 0
}

/// No sample of the buffer is a NaN bit pattern. Integer layouts hold
/// trivially; the float layouts require it so that the codec's channel
/// conversion is defined on every sample.
pub open spec fn no_nan_samples(b: PixelBuffer) -> bool {
    match b {
        PixelBuffer::Luma8(_) => true,
        PixelBuffer::LumaA8(_) => true,
        PixelBuffer::Rgb8(_) => true,
        PixelBuffer::Rgba8(_) => true,
        PixelBuffer::Luma16(_) => true,
        PixelBuffer::LumaA16(_) => true,
        PixelBuffer::Rgb16(_) => true,
        PixelBuffer::Rgba16(_) => true,
        PixelBuffer::Rgb32F(r) => forall|i: int| 0 <= i < r.data@.len() ==> !is_nan_bits(#[trigger] r.data@[i]),
        PixelBuffer::Rgba32F(r) => forall|i: int| 0 <= i < r.data@.len() ==> !is_nan_bits(#[trigger] r.data@[i]),
    }
}

/// Value of byte `i` of the RGBA8 expansion of a raster with `ch` channels
/// per pixel and 8-bit samples `d`: a missing alpha channel becomes 255,
/// a single luma channel is replicated across red, green and blue.
pub open spec fn expand_at8(d: Seq<u8>, ch: nat, i: int) -> u8 {
    let p = i / 4;
    let c = i % 4;
    if c == 3 {
        if ch == 2 || ch == 4 {
            d[ch * p + (ch - 1)]
        } else {
            255u8
        }
    } else {
        if ch <= 2 {
            d[ch * p]
        } else {
            d[ch * p + c]
        }
    }
}

/// Same layout rule for 16-bit samples, with each channel narrowed to 8 bits.
pub open spec fn expand_at16(d: Seq<u16>, ch: nat, i: int) -> u8 {
    let p = i / 4;
    let c = i % 4;
    if c == 3 {
        if ch == 2 || ch == 4 {
            chan8_of_chan16(d[ch * p + (ch - 1)])
        } else {
            255u8
        }
    } else {
        if ch <= 2 {
            chan8_of_chan16(d[ch * p])
        } else {
            chan8_of_chan16(d[ch * p + c])
        }
    }
}

/// Same layout rule for floating-point samples held as bit patterns.
pub open spec fn expand_at_float(d: Seq<u32>, ch: nat, i: int) -> u8 {
    let p = i / 4;
    let c = i % 4;
    if c == 3 {
        if ch == 4 {
            chan8_of_float_bits(d[ch * p + 3])
        } else {
            255u8
        }
    } else {
        chan8_of_float_bits(d[ch * p + c])
    }
}

/// The full RGBA8 expansion of a pixel buffer: four bytes per pixel.
pub open spec fn rgba8_spec(b: PixelBuffer) -> Seq<u8> {
    let n = 4 * (b.spec_width() as nat) * (b.spec_height() as nat);
    match b {
        PixelBuffer::Luma8(r) => Seq::new(n, |i: int| expand_at8(r.data@, 1, i)),
        PixelBuffer::LumaA8(r) => Seq::new(n, |i: int| expand_at8(r.data@, 2, i)),
        PixelBuffer::Rgb8(r) => Seq::new(n, |i: int| expand_at8(r.data@, 3, i)),
        PixelBuffer::Rgba8(r) => Seq::new(n, |i: int| expand_at8(r.data@, 4, i)),
        PixelBuffer::Luma16(r) => Seq::new(n, |i: int| expand_at16(r.data@, 1, i)),
        PixelBuffer::LumaA16(r) => Seq::new(n, |i: int| expand_at16(r.data@, 2, i)),
        PixelBuffer::Rgb16(r) => Seq::new(n, |i: int| expand_at16(r.data@, 3, i)),
        PixelBuffer::Rgba16(r) => Seq::new(n, |i: int| expand_at16(r.data@, 4, i)),
        PixelBuffer::Rgb32F(r) => Seq::new(n, |i: int| expand_at_float(r.data@, 3, i)),
        PixelBuffer::Rgba32F(r) => Seq::new(n, |i: int| expand_at_float(r.data@, 4, i)),
    }
}

/// Expands a raster of 8-bit samples with `ch` channels per pixel to RGBA8.
fn expand8(data: &Vec<u8>, ch: usize) -> (out: Vec<u8>)
    requires
        1 <= ch <= 4,
        data@.len() % ch as nat == 0,
    ensures
        out@.len() == 4 * (data@.len() / ch as nat),
        forall|i: int| 0 <= i < out@.len() ==> out@[i] == expand_at8(data@, ch as nat, i),
{
    let dlen: usize = data.len();
    let npix: usize = dlen / ch;
    proof {
        assert(ch * npix == dlen) by (nonlinear_arith)
            requires
                npix == dlen as int / ch as int,
                dlen as nat % ch as nat == 0,
                1 <= ch <= 4,
        ;
    }
    let mut out: Vec<u8> = Vec::new();
    for p in 0..npix
        invariant
            1 <= ch <= 4,
            dlen == data@.len(),
            ch * npix == dlen,
            out@.len() == 4 * p,
            forall|i: int| 0 <= i < out@.len() ==> out@[i] == expand_at8(data@, ch as nat, i),
    {
        proof {
            assert(ch * p + ch <= ch * npix) by (nonlinear_arith)
                requires
                    p < npix,
                    1 <= ch <= 4,
            ;
        }
        let base: usize = ch * p;
        if ch <= 2 {
            let l = data[base];
            out.push(l);
            out.push(l);
            out.push(l);
            if ch == 2 {
                out.push(data[base + 1]);
            } else {
                out.push(255u8);
            }
        } else {
            out.push(data[base]);
            out.push(data[base + 1]);
            out.push(data[base + 2]);
            if ch == 4 {
                out.push(data[base + 3]);
            } else {
                out.push(255u8);
            }
        }
        proof {
            lemma_pixel_index(p as int, 0);
            lemma_pixel_index(p as int, 1);
            lemma_pixel_index(p as int, 2);
            lemma_pixel_index(p as int, 3);
            assert(forall|i: int| 0 <= i < out@.len() ==> out@[i] == expand_at8(
                data@,
                ch as nat,
                i,
            ));
        }
    }
    out
}

/// Expands a raster of 16-bit samples with `ch` channels per pixel to RGBA8,
/// narrowing each channel.
fn expand16(data: &Vec<u16>, ch: usize) -> (out: Vec<u8>)
    requires
        1 <= ch <= 4,
        data@.len() % ch as nat == 0,
    ensures
        out@.len() == 4 * (data@.len() / ch as nat),
        forall|i: int| 0 <= i < out@.len() ==> out@[i] == expand_at16(data@, ch as nat, i),
{
    let dlen: usize = data.len();
    let npix: usize = dlen / ch;
    proof {
        assert(ch * npix == dlen) by (nonlinear_arith)
            requires
                npix == dlen as int / ch as int,
                dlen as nat % ch as nat == 0,
                1 <= ch <= 4,
        ;
    }
    let mut out: Vec<u8> = Vec::new();
    for p in 0..npix
        invariant
            1 <= ch <= 4,
            dlen == data@.len(),
            ch * npix == dlen,
            out@.len() == 4 * p,
            forall|i: int| 0 <= i < out@.len() ==> out@[i] == expand_at16(data@, ch as nat, i),
    {
        proof {
            assert(ch * p + ch <= ch * npix) by (nonlinear_arith)
                requires
                    p < npix,
                    1 <= ch <= 4,
            ;
        }
        let base: usize = ch * p;
        if ch <= 2 {
            let l = narrow_chan16(data[base]);
            out.push(l);
            out.push(l);
            out.push(l);
            if ch == 2 {
                out.push(narrow_chan16(data[base + 1]));
            } else {
                out.push(255u8);
            }
        } else {
            out.push(narrow_chan16(data[base]));
            out.push(narrow_chan16(data[base + 1]));
            out.push(narrow_chan16(data[base + 2]));
            if ch == 4 {
                out.push(narrow_chan16(data[base + 3]));
            } else {
                out.push(255u8);
            }
        }
        proof {
            lemma_pixel_index(p as int, 0);
            lemma_pixel_index(p as int, 1);
            lemma_pixel_index(p as int, 2);
            lemma_pixel_index(p as int, 3);
            assert(forall|i: int| 0 <= i < out@.len() ==> out@[i] == expand_at16(
                data@,
                ch as nat,
                i,
            ));
        }
    }
    out
}

/// The output byte of pixel `p`, channel `c`, sits at index `4p + c`.
proof fn lemma_pixel_index(p: int, c: int)
    requires
        0 <= p,
        0 <= c < 4,
    ensures
        (4 * p + c) / 4 == p,
        (4 * p + c) % 4 == c,
{
    assert((4 * p + c) / 4 == p && (4 * p + c) % 4 == c) by (nonlinear_arith)
        requires
            0 <= p,
            0 <= c < 4,
    ;
}

/// Relies on image's `DynamicImage::to_rgba8` for three-channel
/// floating-point rasters: each color channel is converted by the codec's
/// float-to-8-bit channel conversion and the missing alpha channel becomes
/// 255, channel by channel, pixel by pixel. The codec's rounding cast
/// aborts on NaN samples, so NaN bit patterns are excluded here.
#[verifier::external_body]
fn rgba8_from_rgb32f(width: u32, height: u32, data: &Vec<u32>) -> (r: Vec<u8>)
    requires
        data@.len() == (width as nat) * (height as nat) * 3,
        forall|i: int| 0 <= i < data@.len() ==> !is_nan_bits(#[trigger] data@[i]),
    ensures
        r@.len() == 4 * (width as nat) * (height as nat),
        forall|i: int|
            0 <= i < r@.len() ==> r@[i] == (if i % 4 == 3 {
                255u8
            } else {
                chan8_of_float_bits(data@[3 * (i / 4) + i % 4])
            }),
{
    let buf = image::Rgb32FImage::from_raw(width, height, bytemuck::pod_collect_to_vec(
        data.as_slice(),
    )).unwrap();
    image::DynamicImage::ImageRgb32F(buf).to_rgba8().into_raw()
}

/// Relies on image's `DynamicImage::to_rgba8` for four-channel
/// floating-point rasters: every channel, alpha included, is converted by
/// the codec's float-to-8-bit channel conversion, channel by channel. The
/// codec's rounding cast aborts on NaN samples, so NaN bit patterns are
/// excluded here.
#[verifier::external_body]
fn rgba8_from_rgba32f(width: u32, height: u32, data: &Vec<u32>) -> (r: Vec<u8>)
    requires
        data@.len() == (width as nat) * (height as nat) * 4,
        forall|i: int| 0 <= i < data@.len() ==> !is_nan_bits(#[trigger] data@[i]),
    ensures
        r@.len() == data@.len(),
        forall|i: int| 0 <= i < r@.len() ==> r@[i] == chan8_of_float_bits(data@[i]),
{
    let buf = image::Rgba32FImage::from_raw(width, height, bytemuck::pod_collect_to_vec(
        data.as_slice(),
    )).unwrap();
    image::DynamicImage::ImageRgba32F(buf).to_rgba8().into_raw()
}

/// Converts any supported pixel buffer to four 8-bit channels per pixel,
/// exactly as the image codec's own conversion does.
pub fn to_rgba8(b: &PixelBuffer) -> (out: Vec<u8>)
    requires
        b.wf(),
        no_nan_samples(*b),
    ensures
        out@ == rgba8_spec(*b),
{
    match b {
        PixelBuffer::Luma8(r) => {
            proof {
                lemma_expand_len(r.data@.len() as int, 1, r.width as int, r.height as int);
            }
            let out = expand8(&r.data, 1);
            proof {
                assert(out@ =~= rgba8_spec(*b));
            }
            out
        },
        PixelBuffer::LumaA8(r) => {
            proof {
                lemma_expand_len(r.data@.len() as int, 2, r.width as int, r.height as int);
            }
            let out = expand8(&r.data, 2);
            proof {
                assert(out@ =~= rgba8_spec(*b));
            }
            out
        },
        PixelBuffer::Rgb8(r) => {
            proof {
                lemma_expand_len(r.data@.len() as int, 3, r.width as int, r.height as int);
            }
            let out = expand8(&r.data, 3);
            proof {
                assert(out@ =~= rgba8_spec(*b));
            }
            out
        },
        PixelBuffer::Rgba8(r) => {
            proof {
                lemma_expand_len(r.data@.len() as int, 4, r.width as int, r.height as int);
            }
            let out = expand8(&r.data, 4);
            proof {
                assert(out@ =~= rgba8_spec(*b));
            }
            out
        },
        PixelBuffer::Luma16(r) => {
            proof {
                lemma_expand_len(r.data@.len() as int, 1, r.width as int, r.height as int);
            }
            let out = expand16(&r.data, 1);
            proof {
                assert(out@ =~= rgba8_spec(*b));
            }
            out
        },
        PixelBuffer::LumaA16(r) => {
            proof {
                lemma_expand_len(r.data@.len() as int, 2, r.width as int, r.height as int);
            }
            let out = expand16(&r.data, 2);
            proof {
                assert(out@ =~= rgba8_spec(*b));
            }
            out
        },
        PixelBuffer::Rgb16(r) => {
            proof {
                lemma_expand_len(r.data@.len() as int, 3, r.width as int, r.height as int);
            }
            let out = expand16(&r.data, 3);
            proof {
                assert(out@ =~= rgba8_spec(*b));
            }
            out
        },
        PixelBuffer::Rgba16(r) => {
            proof {
                lemma_expand_len(r.data@.len() as int, 4, r.width as int, r.height as int);
            }
            let out = expand16(&r.data, 4);
            proof {
                assert(out@ =~= rgba8_spec(*b));
            }
            out
        },
        PixelBuffer::Rgb32F(r) => {
            let out = rgba8_from_rgb32f(r.width, r.height, &r.data);
            proof {
                assert(out@ =~= rgba8_spec(*b));
            }
            out
        },
        PixelBuffer::Rgba32F(r) => {
            let out = rgba8_from_rgba32f(r.width, r.height, &r.data);
            proof {
                assert(out@.len() == 4 * (r.width as int) * (r.height as int))
                    by (nonlinear_arith)
                    requires
                        out@.len() == (r.width as int) * (r.height as int) * 4,
                ;
                assert forall|i: int| 0 <= i < out@.len() implies out@[i] == expand_at_float(
                    r.data@,
                    4,
                    i,
                ) by {
                    vstd::arithmetic::div_mod::lemma_fundamental_div_mod(i, 4);
                }
                assert(out@ =~= rgba8_spec(*b));
            }
            out
        },
    }
}

/// A raster of `w * h` pixels with `ch` channels splits evenly into pixels,
/// and expanding it gives four bytes per pixel.
proof fn lemma_expand_len(len: int, ch: int, w: int, h: int)
    requires
        1 <= ch,
        0 <= w,
        0 <= h,
        len == w * h * ch,
    ensures
        len % ch == 0,
        4 * (len / ch) == 4 * w * h,
{
    assert(len % ch == 0 && 4 * (len / ch) == 4 * w * h) by (nonlinear_arith)
        requires
            1 <= ch,
            0 <= w,
            0 <= h,
            len == w * h * ch,
    ;
}

} // verus!
