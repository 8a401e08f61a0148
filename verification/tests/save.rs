use image_io::save::SaveError;
use image_io::save::encode_gif;
use image_io::save::encode_tiff;
use image_io::save::encode_webp;
use image_io::save::encode_webp_animation;
use image_io::save::encode_with_format;
use image_io::save::get_temp_path;
use image_io::util::Image;
use image_io::util::PixelBuffer;
use image_io::util::Raster;

fn rgba8_image(width: u32, height: u32, data: Vec<u8>) -> Image {
    Image::new(PixelBuffer::Rgba8(Raster { width, height, data }))
}

fn solid_rgba(width: u32, height: u32, pixel: [u8; 4]) -> Vec<u8> {
    let mut data = Vec::new();
    for _ in 0..width * height {
        data.extend_from_slice(&pixel);
    }
    data
}

#[test]
fn png_round_trips_exactly() {
    let data = vec![
        255, 0, 0, 255, 0, 255, 0, 255,
        0, 0, 255, 255, 10, 20, 30, 40,
    ];
    let image = rgba8_image(2, 2, data.clone());
    let bytes = encode_with_format(&image, image::ImageOutputFormat::Png).unwrap();
    let decoded = image::load_from_memory_with_format(&bytes, image::ImageFormat::Png).unwrap();
    assert_eq!(decoded.to_rgba8().into_raw(), data);
}

#[test]
fn tiff_round_trips_exactly() {
    let data = vec![255, 0, 0, 0, 255, 0, 0, 0, 255, 1, 2, 3];
    let image = Image::new(PixelBuffer::Rgb8(Raster { width: 2, height: 2, data: data.clone() }));
    let bytes = encode_tiff(&image).unwrap();
    let decoded = image::load_from_memory_with_format(&bytes, image::ImageFormat::Tiff).unwrap();
    assert_eq!(decoded.to_rgb8().into_raw(), data);
}

#[test]
fn tiff_round_trips_sixteen_bit() {
    let data: Vec<u16> = vec![0, 65535, 700, 40000];
    let image = Image::new(PixelBuffer::Luma16(Raster { width: 2, height: 2, data: data.clone() }));
    let bytes = encode_tiff(&image).unwrap();
    let decoded = image::load_from_memory_with_format(&bytes, image::ImageFormat::Tiff).unwrap();
    assert_eq!(decoded.to_luma16().into_raw(), data);
}

#[test]
fn unsupported_format_reports_a_codec_error() {
    // The JPEG encoder takes no 16-bit RGBA input.
    let image = Image::new(PixelBuffer::Rgba16(Raster {
        width: 1,
        height: 1,
        data: vec![1, 2, 3, 4],
    }));
    let result = encode_with_format(&image, image::ImageOutputFormat::Jpeg(80));
    assert!(matches!(result, Err(SaveError::Image(_))));
}

#[test]
fn static_webp_round_trips_exactly() {
    // A single 2x2 RGBA frame with zero delay, encoded as lossless WEBP.
    let data = vec![
        255, 255, 255, 255, 255, 0, 0, 255,
        0, 255, 0, 255, 0, 0, 255, 128,
    ];
    let image = rgba8_image(2, 2, data.clone());
    assert_eq!(image.delay, 0);
    let bytes = encode_webp(&image).unwrap();
    assert_eq!(&bytes[0..4], b"RIFF");
    assert_eq!(&bytes[8..12], b"WEBP");
    let (width, height, decoded) = libwebp::WebPDecodeRGBA(&bytes).unwrap();
    assert_eq!((width, height), (2, 2));
    assert_eq!(&*decoded, data.as_slice());
}

#[test]
fn static_webp_of_luma_expands_before_encoding() {
    // Would fail if the conversion to RGBA handed its input back unchanged.
    let image = Image::new(PixelBuffer::Luma8(Raster {
        width: 2,
        height: 1,
        data: vec![10, 200],
    }));
    let bytes = encode_webp(&image).unwrap();
    let (width, height, decoded) = libwebp::WebPDecodeRGBA(&bytes).unwrap();
    assert_eq!((width, height), (2, 1));
    assert_eq!(&*decoded, &[10, 10, 10, 255, 200, 200, 200, 255]);
}

#[test]
fn empty_image_reports_a_webp_error() {
    let image = rgba8_image(0, 0, Vec::new());
    let result = encode_webp(&image);
    assert!(matches!(result, Err(SaveError::LibWebp(_))));
}

#[test]
fn animated_webp_accumulates_timestamps() {
    // Three 4x4 RGBA frames with delays 100ms, 150ms, 200ms: the frames
    // enter at 0, 100 and 250, and the finalized duration is 450ms.
    let frames = vec![
        Image::with_delay(
            PixelBuffer::Rgba8(Raster { width: 4, height: 4, data: solid_rgba(4, 4, [255, 0, 0, 255]) }),
            100,
        ),
        Image::with_delay(
            PixelBuffer::Rgba8(Raster { width: 4, height: 4, data: solid_rgba(4, 4, [0, 255, 0, 255]) }),
            150,
        ),
        Image::with_delay(
            PixelBuffer::Rgba8(Raster { width: 4, height: 4, data: solid_rgba(4, 4, [0, 0, 255, 255]) }),
            200,
        ),
    ];
    let bytes = encode_webp_animation(&frames).unwrap();
    let decoder = webp_animation::Decoder::new(&bytes).unwrap();
    let decoded: Vec<_> = decoder.into_iter().collect();
    assert_eq!(decoded.len(), 3);
    // The decoder reports each frame's end time: the frames entered at
    // 0, 100 and 250, ran for 100ms, 150ms and 200ms, and the finalized
    // total duration is 450ms.
    let end_times: Vec<i32> = decoded.iter().map(|f| f.timestamp()).collect();
    assert_eq!(end_times, vec![100, 250, 450]);
    let durations = [100, 150, 200];
    let starts: Vec<i32> = end_times.iter().zip(durations.iter()).map(|(e, d)| e - d).collect();
    assert_eq!(starts, vec![0, 100, 250]);
    assert_eq!(decoded[0].data(), solid_rgba(4, 4, [255, 0, 0, 255]).as_slice());
    assert_eq!(decoded[1].data(), solid_rgba(4, 4, [0, 255, 0, 255]).as_slice());
    assert_eq!(decoded[2].data(), solid_rgba(4, 4, [0, 0, 255, 255]).as_slice());
}

#[test]
fn mismatched_frame_sizes_report_an_animation_error() {
    let frames = vec![
        Image::with_delay(
            PixelBuffer::Rgba8(Raster { width: 4, height: 4, data: solid_rgba(4, 4, [1, 2, 3, 4]) }),
            100,
        ),
        Image::with_delay(
            PixelBuffer::Rgba8(Raster { width: 2, height: 2, data: solid_rgba(2, 2, [1, 2, 3, 4]) }),
            100,
        ),
    ];
    let result = encode_webp_animation(&frames);
    assert!(matches!(result, Err(SaveError::WebpAnimation(_))));
}

#[test]
fn gif_keeps_frame_count_dimensions_and_delays() {
    let frames = vec![
        Image::with_delay(
            PixelBuffer::Rgba8(Raster { width: 2, height: 2, data: solid_rgba(2, 2, [255, 0, 0, 255]) }),
            100,
        ),
        Image::with_delay(
            PixelBuffer::Rgba8(Raster { width: 2, height: 2, data: solid_rgba(2, 2, [0, 255, 0, 255]) }),
            200,
        ),
    ];
    let bytes = encode_gif(frames).unwrap();
    let decoder = image::codecs::gif::GifDecoder::new(std::io::Cursor::new(bytes)).unwrap();
    let decoded: Vec<_> = image::AnimationDecoder::into_frames(decoder)
        .collect_frames()
        .unwrap();
    assert_eq!(decoded.len(), 2);
    let expected_ms = [100u32, 200u32];
    for (frame, want) in decoded.iter().zip(expected_ms.iter()) {
        assert_eq!(frame.buffer().dimensions(), (2, 2));
        let (numer, denom) = frame.delay().numer_denom_ms();
        assert_eq!(numer / denom, *want);
        assert_eq!(numer % denom, 0);
    }
}

#[test]
fn temp_path_stays_in_the_target_directory() {
    let temp = get_temp_path("/tmp/x.webp");
    assert!(temp.starts_with("/tmp/"));
    assert_eq!(temp.chars().count(), "/tmp/".chars().count() + 36);
    assert_ne!(temp, "/tmp/x.webp");
    assert!(!temp["/tmp/".len()..].contains('/'));
}

#[test]
fn temp_path_without_directory_is_a_bare_name() {
    let temp = get_temp_path("plain.png");
    assert_eq!(temp.chars().count(), 36);
    assert!(!temp.contains('/'));
}

#[test]
fn temp_paths_are_fresh_on_every_call() {
    let a = get_temp_path("/tmp/x.webp");
    let b = get_temp_path("/tmp/x.webp");
    assert_ne!(a, b);
}

#[test]
fn io_errors_fold_into_the_io_variant() {
    let cause = std::io::Error::new(std::io::ErrorKind::PermissionDenied, "denied");
    let error = SaveError::from(cause);
    assert!(matches!(error, SaveError::Io(_)));
}

#[test]
fn codec_errors_fold_into_the_image_variant() {
    let cause = image::load_from_memory(&[]).unwrap_err();
    let error = SaveError::from(cause);
    assert!(matches!(error, SaveError::Image(_)));
}
