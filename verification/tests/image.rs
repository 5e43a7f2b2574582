use eidos::color::ColorPalette;
use eidos::image_ops::{ImageProcessor, LoadError};
use eidos::segmentation::Region;
use eidos::DesmosOptimizer;

fn img_png(w: u32, h: u32, pixels: Vec<u8>) -> Vec<u8> {
    let img = image::RgbaImage::from_raw(w, h, pixels).unwrap();
    let mut out = std::io::Cursor::new(Vec::new());
    img.write_to(&mut out, image::ImageFormat::Png).unwrap();
    out.into_inner()
}

fn img_pixels() -> Vec<u8> {
    vec![
        255, 0, 0, 255, 0, 255, 0, 255, 0, 0, 255, 128, 10, 20, 30, 40, 50, 60, 70, 80, 90, 100, 110,
        120,
    ]
}

#[test]
fn from_raster_takes_a_full_raster() {
    let p = ImageProcessor::from_raster(3, 2, img_pixels()).ok().unwrap();
    assert_eq!(p.width(), 3);
    assert_eq!(p.height(), 2);
    assert_eq!(p.get_pixels(), img_pixels());
}

#[test]
fn from_raster_drops_bytes_beyond_the_picture() {
    let mut pixels = img_pixels();
    pixels.extend_from_slice(&[1, 2, 3]);
    let p = ImageProcessor::from_raster(3, 2, pixels).ok().unwrap();
    assert_eq!(p.get_pixels(), img_pixels());
}

#[test]
fn from_raster_refuses_a_picture_without_pixels() {
    assert_eq!(ImageProcessor::from_raster(0, 2, Vec::new()).err(), Some(LoadError::Empty));
    assert_eq!(ImageProcessor::from_raster(2, 0, Vec::new()).err(), Some(LoadError::Empty));
    assert_eq!(ImageProcessor::from_raster(0, 0, img_pixels()).err(), Some(LoadError::Empty));
    assert_eq!(ImageProcessor::from_raster(0, u32::MAX, Vec::new()).err(), Some(LoadError::Empty));
}

#[test]
fn from_raster_refuses_a_picture_too_large() {
    assert_eq!(
        ImageProcessor::from_raster(65536, 16384, Vec::new()).err(),
        Some(LoadError::TooLarge)
    );
    assert_eq!(
        ImageProcessor::from_raster(u32::MAX, u32::MAX, img_pixels()).err(),
        Some(LoadError::TooLarge)
    );
    assert_eq!(
        ImageProcessor::from_raster(1 << 30, 1, Vec::new()).err(),
        Some(LoadError::TooLarge)
    );
}

#[test]
fn from_raster_refuses_too_few_bytes() {
    let mut pixels = img_pixels();
    pixels.pop();
    assert_eq!(ImageProcessor::from_raster(3, 2, pixels).err(), Some(LoadError::Truncated));
    assert_eq!(ImageProcessor::from_raster(1, 1, Vec::new()).err(), Some(LoadError::Truncated));
    assert_eq!(
        ImageProcessor::from_raster((1 << 30) - 1, 1, Vec::new()).err(),
        Some(LoadError::Truncated)
    );
}

#[test]
fn new_decodes_a_png() {
    let png = img_png(3, 2, img_pixels());
    assert_ne!(png, img_pixels());
    let p = ImageProcessor::new(&png).ok().unwrap();
    assert_eq!(p.width(), 3);
    assert_eq!(p.height(), 2);
    assert_eq!(p.get_pixels(), img_pixels());
}

#[test]
fn new_reports_bytes_that_are_no_picture() {
    match ImageProcessor::new(b"this is no picture") {
        Err(LoadError::Decode(message)) => {
            assert!(message.starts_with("Failed to load image: "));
            assert!(message.len() > "Failed to load image: ".len());
        }
        _ => panic!("bytes that are no picture must not decode"),
    }
    assert!(matches!(ImageProcessor::new(&[]), Err(LoadError::Decode(_))));
    let mut png = img_png(3, 2, img_pixels());
    png.truncate(20);
    assert!(matches!(ImageProcessor::new(&png), Err(LoadError::Decode(_))));
}

#[test]
fn session_starts_from_an_encoded_picture() {
    let png = img_png(3, 2, img_pixels());
    let mut s = DesmosOptimizer::new(&png, 2, 0).ok().unwrap();
    assert_eq!(s.target(), &img_pixels());
    assert_eq!(s.canvas(), &vec![255u8; 24]);
    assert_eq!(s.shape_count(), 0);
    assert!(!s.step(1));
    assert!(s.step(1));
    assert_eq!(s.shape_count(), 2);
}

#[test]
fn session_refuses_bytes_that_are_no_picture() {
    assert!(matches!(DesmosOptimizer::new(b"nothing", 2, 0), Err(LoadError::Decode(_))));
}

#[test]
fn palette_hands_out_its_colours() {
    let p = ColorPalette::new(vec![0xff0000, 0x00ff00, 7]);
    assert_eq!(p.get_colors(), vec![0xff0000, 0x00ff00, 7]);
    assert_eq!(ColorPalette::new(Vec::new()).get_colors(), Vec::<u32>::new());
}

#[test]
fn region_counts_its_pixels() {
    let r = Region::new(4, 0xabcdef, vec![5, 6, 9]);
    assert_eq!(r.id, 4);
    assert_eq!(r.color, 0xabcdef);
    assert_eq!(r.pixel_count(), 3);
    assert_eq!(r.get_pixels(), &[5, 6, 9]);
    let empty = Region::new(0, 0, Vec::new());
    assert_eq!(empty.pixel_count(), 0);
    assert!(empty.get_pixels().is_empty());
}

#[test]
fn errors_say_what_went_wrong() {
    assert_eq!(LoadError::Empty.message(), "Failed to load image: it has no pixels");
    assert_eq!(LoadError::TooLarge.message(), "Failed to load image: it is too large");
    assert_eq!(LoadError::Truncated.message(), "Failed to load image: pixels are missing");
    assert_eq!(LoadError::Decode("Failed to load image: x".to_string()).message(), "Failed to load image: x");
    match ImageProcessor::new(b"junk") {
        Err(e) => assert!(e.message().starts_with("Failed to load image: ")),
        Ok(_) => panic!("junk must not decode"),
    }
}
