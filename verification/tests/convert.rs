use image_io::convert::to_rgba8;
use image_io::util::PixelBuffer;
use image_io::util::Raster;

fn raster8(width: u32, height: u32, data: Vec<u8>) -> Raster<u8> {
    Raster { width, height, data }
}

fn raster16(width: u32, height: u32, data: Vec<u16>) -> Raster<u16> {
    Raster { width, height, data }
}

fn raster_f(width: u32, height: u32, data: Vec<f32>) -> Raster<u32> {
    Raster { width, height, data: data.into_iter().map(f32::to_bits).collect() }
}

#[test]
fn luma8_expands_with_opaque_alpha() {
    let out = to_rgba8(&PixelBuffer::Luma8(raster8(2, 1, vec![10, 20])));
    assert_eq!(out, vec![10, 10, 10, 255, 20, 20, 20, 255]);
}

#[test]
fn luma_a8_keeps_alpha() {
    let out = to_rgba8(&PixelBuffer::LumaA8(raster8(1, 2, vec![10, 128, 20, 7])));
    assert_eq!(out, vec![10, 10, 10, 128, 20, 20, 20, 7]);
}

#[test]
fn rgb8_gains_opaque_alpha() {
    let out = to_rgba8(&PixelBuffer::Rgb8(raster8(2, 1, vec![1, 2, 3, 4, 5, 6])));
    assert_eq!(out, vec![1, 2, 3, 255, 4, 5, 6, 255]);
}

#[test]
fn rgba8_is_unchanged() {
    let data = vec![1, 2, 3, 4, 5, 6, 7, 8];
    let out = to_rgba8(&PixelBuffer::Rgba8(raster8(1, 2, data.clone())));
    assert_eq!(out, data);
}

#[test]
fn rgba16_narrows_with_rounding() {
    // (c + 128) / 257: 0 -> 0, 65535 -> 255, 32768 -> 128.
    let out = to_rgba8(&PixelBuffer::Rgba16(raster16(1, 1, vec![0, 65535, 32768, 257])));
    assert_eq!(out, vec![0, 255, 128, 1]);
}

#[test]
fn sixteen_bit_matches_the_codec() {
    let samples: Vec<u16> = vec![0, 1, 255, 256, 257, 12345, 32767, 32768, 54321, 65534, 65535];
    for &s in &samples {
        let ours = to_rgba8(&PixelBuffer::Luma16(raster16(1, 1, vec![s])));
        let buffer = image::ImageBuffer::from_raw(1, 1, vec![s]).unwrap();
        let theirs = image::DynamicImage::ImageLuma16(buffer).to_rgba8().into_raw();
        assert_eq!(ours, theirs, "sample {s}");
    }
    let luma_a = to_rgba8(&PixelBuffer::LumaA16(raster16(1, 1, vec![700, 40000])));
    let buffer = image::ImageBuffer::from_raw(1, 1, vec![700, 40000]).unwrap();
    let expect = image::DynamicImage::ImageLumaA16(buffer).to_rgba8().into_raw();
    assert_eq!(luma_a, expect);
    let rgb = to_rgba8(&PixelBuffer::Rgb16(raster16(1, 1, vec![700, 40000, 65535])));
    let buffer = image::ImageBuffer::from_raw(1, 1, vec![700, 40000, 65535]).unwrap();
    let expect = image::DynamicImage::ImageRgb16(buffer).to_rgba8().into_raw();
    assert_eq!(rgb, expect);
}

#[test]
fn float_rgb_matches_the_codec() {
    let data = vec![0.0f32, 0.25, 0.5, 0.75, 1.0, 2.0, -1.0, 0.999, 0.001];
    let ours = to_rgba8(&PixelBuffer::Rgb32F(raster_f(3, 1, data.clone())));
    let buffer = image::Rgb32FImage::from_raw(3, 1, data).unwrap();
    let theirs = image::DynamicImage::ImageRgb32F(buffer).to_rgba8().into_raw();
    assert_eq!(ours, theirs);
    // Missing alpha becomes fully opaque.
    assert_eq!(ours[3], 255);
    assert_eq!(ours[7], 255);
    assert_eq!(ours[11], 255);
}

#[test]
fn float_rgba_matches_the_codec() {
    let data = vec![0.0f32, 0.25, 0.5, 0.75, 1.0, 2.0, -1.0, 0.5];
    let ours = to_rgba8(&PixelBuffer::Rgba32F(raster_f(2, 1, data.clone())));
    let buffer = image::Rgba32FImage::from_raw(2, 1, data).unwrap();
    let theirs = image::DynamicImage::ImageRgba32F(buffer).to_rgba8().into_raw();
    assert_eq!(ours, theirs);
    // The conversion clamps: 1.0 and 2.0 both saturate to 255, -1.0 to 0.
    assert_eq!(ours[4], 255);
    assert_eq!(ours[5], 255);
    assert_eq!(ours[6], 0);
}
