use image_io::util::ColorBits;
use image_io::util::GetColorBits;
use image_io::util::HasAlpha;
use image_io::util::Image;
use image_io::util::ImageData;
use image_io::util::PixelBuffer;
use image_io::util::Raster;
use image_io::util::UserEvent;
use image_io::util::delay_millis_from_ratio;

fn raster8(width: u32, height: u32, data: Vec<u8>) -> Raster<u8> {
    Raster { width, height, data }
}

fn raster16(width: u32, height: u32, data: Vec<u16>) -> Raster<u16> {
    Raster { width, height, data }
}

fn raster_f(width: u32, height: u32, data: Vec<u32>) -> Raster<u32> {
    Raster { width, height, data }
}

fn all_variants() -> Vec<PixelBuffer> {
    vec![
        PixelBuffer::Luma8(raster8(1, 1, vec![7])),
        PixelBuffer::LumaA8(raster8(1, 1, vec![7, 9])),
        PixelBuffer::Rgb8(raster8(1, 1, vec![1, 2, 3])),
        PixelBuffer::Rgba8(raster8(1, 1, vec![1, 2, 3, 4])),
        PixelBuffer::Luma16(raster16(1, 1, vec![700])),
        PixelBuffer::LumaA16(raster16(1, 1, vec![700, 900])),
        PixelBuffer::Rgb16(raster16(1, 1, vec![1, 2, 3])),
        PixelBuffer::Rgba16(raster16(1, 1, vec![1, 2, 3, 4])),
        PixelBuffer::Rgb32F(raster_f(1, 1, vec![0, 0, 0])),
        PixelBuffer::Rgba32F(raster_f(1, 1, vec![0, 0, 0, 0])),
    ]
}

#[test]
fn has_alpha_is_total_and_matches_channel_layout() {
    let expected = [false, true, false, true, false, true, false, true, false, true];
    for (buffer, want) in all_variants().iter().zip(expected.iter()) {
        assert_eq!(buffer.has_alpha(), *want);
    }
}

#[test]
fn color_bits_is_total_and_matches_sample_depth() {
    let variants = all_variants();
    for buffer in &variants[0..4] {
        assert!(matches!(buffer.get_color_bits(), ColorBits::U8));
    }
    for buffer in &variants[4..8] {
        assert!(matches!(buffer.get_color_bits(), ColorBits::U16));
    }
    for buffer in &variants[8..10] {
        assert!(matches!(buffer.get_color_bits(), ColorBits::F32));
    }
}

#[test]
fn new_still_has_zero_delay() {
    let image = Image::new(PixelBuffer::Rgba8(raster8(1, 1, vec![1, 2, 3, 4])));
    assert_eq!(image.delay, 0);
}

#[test]
fn with_delay_keeps_delay() {
    let image = Image::with_delay(PixelBuffer::Rgba8(raster8(1, 1, vec![1, 2, 3, 4])), 125);
    assert_eq!(image.delay, 125);
}

#[test]
fn buffer_accessors_expose_the_pixel_buffer() {
    let mut image = Image::new(PixelBuffer::Luma8(raster8(1, 1, vec![42])));
    match image.buffer() {
        PixelBuffer::Luma8(r) => assert_eq!(r.data, vec![42]),
        _ => panic!("unexpected variant"),
    }
    match image.buffer_mut() {
        PixelBuffer::Luma8(r) => r.data[0] = 43,
        _ => panic!("unexpected variant"),
    }
    match image.buffer() {
        PixelBuffer::Luma8(r) => assert_eq!(r.data, vec![43]),
        _ => panic!("unexpected variant"),
    }
}

#[test]
fn delay_ratio_exact_division() {
    assert_eq!(delay_millis_from_ratio(100, 1), 100);
}

#[test]
fn delay_ratio_truncates() {
    assert_eq!(delay_millis_from_ratio(100, 3), 33);
    assert_eq!(delay_millis_from_ratio(1, 2), 0);
}

#[test]
fn image_data_holds_frames_and_metadata() {
    let frames = vec![Image::new(PixelBuffer::Luma8(raster8(1, 1, vec![0])))];
    let metadata = vec![(String::from("format"), String::from("png"))];
    let data = ImageData::new(frames, metadata);
    assert_eq!(data.frames.len(), 1);
    assert_eq!(data.metadata.len(), 1);
    assert_eq!(data.metadata[0].0, "format");
}

#[test]
fn image_data_from_frames_has_no_metadata() {
    let frames = vec![Image::new(PixelBuffer::Luma8(raster8(1, 1, vec![0])))];
    let data = ImageData::from_frames(frames);
    assert_eq!(data.frames.len(), 1);
    assert!(data.metadata.is_empty());
}

#[test]
fn user_events_carry_their_payloads() {
    let event = UserEvent::QueueSave(String::from("/tmp/out.png"));
    match event {
        UserEvent::QueueSave(path) => assert_eq!(path, "/tmp/out.png"),
        _ => panic!("unexpected event"),
    }
    assert!(matches!(UserEvent::Exit, UserEvent::Exit));
    assert!(matches!(UserEvent::Output(None), UserEvent::Output(None)));
}
