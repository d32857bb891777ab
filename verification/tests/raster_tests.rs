use jpgshrink::{load_raster, prepare_image, shrink_to_fit, Config, ConvertError, Raster};

fn png_bytes(width: u32, height: u32) -> Vec<u8> {
    let img = image::RgbImage::from_pixel(width, height, image::Rgb([120, 30, 200]));
    let mut buf: Vec<u8> = Vec::new();
    img.write_to(&mut std::io::Cursor::new(&mut buf), image::ImageFormat::Png).unwrap();
    buf
}

#[test]
fn decode_reports_dimensions_and_rgb_layout() {
    let buf = png_bytes(5, 3);
    let raster = load_raster(&buf).unwrap();
    assert_eq!(raster.width, 5);
    assert_eq!(raster.height, 3);
    assert_eq!(raster.pixels.len(), 5 * 3 * 3);
    assert_eq!(&raster.pixels[0..3], &[120, 30, 200]);
}

#[test]
fn decode_of_garbage_is_a_load_error() {
    let garbage = vec![1u8, 2, 3, 4, 5, 6, 7, 8];
    assert_eq!(load_raster(&garbage).unwrap_err(), ConvertError::Load);
    assert_eq!(prepare_image(&garbage, 3840).unwrap_err(), ConvertError::Load);
}

#[test]
fn prepare_shrinks_an_oversized_raster() {
    let buf = png_bytes(100, 60);
    let raster = prepare_image(&buf, 10).unwrap();
    assert_eq!((raster.width, raster.height), (10, 6));
    assert_eq!(raster.pixels.len(), 10 * 6 * 3);
}

#[test]
fn prepare_keeps_a_raster_within_the_bound() {
    let buf = png_bytes(8, 5);
    let raster = prepare_image(&buf, 10).unwrap();
    assert_eq!((raster.width, raster.height), (8, 5));
    assert_eq!(raster.pixels.len(), 8 * 5 * 3);
}

#[test]
fn shrink_is_stable_on_its_own_output() {
    let buf = png_bytes(100, 60);
    let once = prepare_image(&buf, 10).unwrap();
    let pixels_once = once.pixels.clone();
    let twice = shrink_to_fit(once, 10);
    assert_eq!((twice.width, twice.height), (10, 6));
    assert_eq!(twice.pixels, pixels_once);
}

#[test]
fn shrink_leaves_small_raster_bytes_untouched() {
    let pixels: Vec<u8> = (0..24u8).collect();
    let raster = Raster { pixels: pixels.clone(), width: 4, height: 2 };
    let out = shrink_to_fit(raster, 4);
    assert_eq!((out.width, out.height), (4, 2));
    assert_eq!(out.pixels, pixels);
}

#[test]
fn scanlines_come_row_by_row_from_the_top() {
    let pixels: Vec<u8> = (0..24u8).collect();
    let raster = jpgshrink::Raster { pixels, width: 4, height: 2 };
    assert_eq!(jpgshrink::scanline(&raster, 0), &(0..12u8).collect::<Vec<u8>>()[..]);
    assert_eq!(jpgshrink::scanline(&raster, 1), &(12..24u8).collect::<Vec<u8>>()[..]);
}

#[test]
fn config_validates_bounds_once() {
    assert!(Config::new(3840, 80, b"resized".to_vec()).is_some());
    assert!(Config::new(1, 1, Vec::new()).is_some());
    assert!(Config::new(1, 100, Vec::new()).is_some());
    assert!(Config::new(0, 80, Vec::new()).is_none());
    assert!(Config::new(3840, 0, Vec::new()).is_none());
    assert!(Config::new(3840, 101, Vec::new()).is_none());
    let cfg = Config::new(3840, 80, b"resized".to_vec()).unwrap();
    assert_eq!(cfg.max_dimension, 3840);
    assert_eq!(cfg.quality, 80);
    assert_eq!(cfg.output_dir, b"resized".to_vec());
}
