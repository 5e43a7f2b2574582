//! Pictures as the fitter takes them: decoded to rows of four-byte pixels.

use vstd::prelude::*;
use vstd::string::StringExecFns;

verus! {

/// The error type of the `image` crate; nothing of it is read here but its
/// text.
#[verifier::external_type_specification]
#[verifier::external_body]
pub struct ExImageError(image::ImageError);

/// Why a picture could not be taken.
#[derive(Clone, Debug, PartialEq, Eq)]
pub enum LoadError {
    /// The bytes are no picture that the decoder knows; with its words.
    Decode(String),
    /// The picture has no pixel.
    Empty,
    /// The picture's bytes cannot be counted in 32 bits.
    TooLarge,
    /// There are fewer than four bytes for each pixel.
    Truncated,
}

impl LoadError {
    /// What the error says, for `Decode` the decoder's words.
    pub open spec fn text(self) -> Seq<char> {
        match self {
            LoadError::Decode(message) => message@,
            LoadError::Empty => "Failed to load image: it has no pixels"@,
            LoadError::TooLarge => "Failed to load image: it is too large"@,
            LoadError::Truncated => "Failed to load image: pixels are missing"@,
        }
    }

    /// What the error says.
    pub fn message(&self) -> (s: String)
        ensures
            s@ == self.text(),
    {
        match self {
            LoadError::Decode(message) => message.clone(),
            LoadError::Empty => String::from_str("Failed to load image: it has no pixels"),
            LoadError::TooLarge => String::from_str("Failed to load image: it is too large"),
            LoadError::Truncated => String::from_str("Failed to load image: pixels are missing"),
        }
    }
}

/// A decoded picture: `width` by `height` pixels of four bytes each (red,
/// green, blue, opacity), row by row.
pub struct ImageProcessor {
    width: u32,
    height: u32,
    pixels: Vec<u8>,
}

/// What an `ImageProcessor` holds.
pub ghost struct Raster {
    pub width: u32,
    pub height: u32,
    pub pixels: Seq<u8>,
}

impl Raster {
    /// Whether the picture has a pixel, four bytes for each, and a byte
    /// count that fits in 32 bits.
    pub open spec fn wf(self) -> bool {
        &&& self.width > 0
        &&& self.height > 0
        &&& 4 * (self.width * self.height) <= u32::MAX
        &&& self.pixels.len() == 4 * (self.width * self.height)
    }
}

/// How taking a raster of `width` by `height` with the bytes `pixels` ends:
/// with the picture made of the first four bytes per pixel, or with the
/// first reason, in the order of `LoadError`, why there is none.
pub open spec fn taken(width: u32, height: u32, pixels: Seq<u8>) -> Result<Raster, LoadError> {
    if width == 0 || height == 0 {
        Err(LoadError::Empty)
    } else if 4 * (width * height) > u32::MAX {
        Err(LoadError::TooLarge)
    } else if pixels.len() < 4 * (width * height) {
        Err(LoadError::Truncated)
    } else {
        Ok(Raster { width, height, pixels: pixels.subrange(0, 4 * (width * height)) })
    }
}

/// Calls `image::load_from_memory` on `data` and, where it succeeds,
/// `DynamicImage::to_rgba8`, `ImageBuffer::dimensions` and
/// `ImageBuffer::into_raw` on what it gives. Trusted: a picture that comes
/// back has at least four bytes for each of its pixels, as every
/// `ImageBuffer` of four-channel bytes has. Which bytes give which picture
/// is left open.
#[verifier::external_body]
fn decode_rgba(data: &[u8]) -> (r: Result<(u32, u32, Vec<u8>), image::ImageError>)
    ensures
        r matches Ok(img) ==> img.2@.len() >= 4 * (img.0 * img.1),
{
    let img = image::load_from_memory(data)?;
    let rgba = img.to_rgba8();
    let (width, height) = rgba.dimensions();
    Ok((width, height, rgba.into_raw()))
}

/// Calls `ToString::to_string` on an error of the `image` crate. Nothing is
/// claimed of the text.
#[verifier::external_body]
fn error_text(e: &image::ImageError) -> (s: String) {
    e.to_string()
}

impl View for ImageProcessor {
    type V = Raster;

    closed spec fn view(&self) -> Raster {
        Raster { width: self.width, height: self.height, pixels: self.pixels@ }
    }
}

impl ImageProcessor {
    /// Takes a decoded raster: `width` by `height`, with four bytes per
    /// pixel in `pixels`; bytes beyond those are dropped.
    pub fn from_raster(width: u32, height: u32, pixels: Vec<u8>) -> (r: Result<
        ImageProcessor,
        LoadError,
    >)
        ensures
            match r {
                Ok(p) => taken(width, height, pixels@) == Ok::<Raster, LoadError>(p@) && p@.wf(),
                Err(e) => taken(width, height, pixels@) == Err::<Raster, LoadError>(e),
            },
    {
        if width == 0 || height == 0 {
            return Err(LoadError::Empty);
        }
        assert(0 <= width * height <= 0xffff_ffff * 0xffff_ffff) by (nonlinear_arith)
            requires
                0 <= width <= 0xffff_ffff,
                0 <= height <= 0xffff_ffff,
        ;
        let bytes: u128 = 4 * (width as u128 * height as u128);
        if bytes > u32::MAX as u128 {
            return Err(LoadError::TooLarge);
        }
        if (pixels.len() as u128) < bytes {
            return Err(LoadError::Truncated);
        }
        let mut pixels = pixels;
        pixels.truncate(bytes as usize);
        Ok(ImageProcessor { width, height, pixels })
    }

    /// Decodes `image_data`, in any format that the decoder knows, to a
    /// picture. Whether the bytes decode is the decoder's to say; a picture
    /// that decodes is taken as `from_raster` takes it.
    pub fn new(image_data: &[u8]) -> (r: Result<ImageProcessor, LoadError>)
        ensures
            match r {
                Ok(p) => p@.wf(),
                Err(LoadError::Decode(m)) => exists|t: Seq<char>| m@ == "Failed to load image: "@ + t,
                Err(e) => e == LoadError::Empty || e == LoadError::TooLarge,
            },
    {
        match decode_rgba(image_data) {
            Ok(img) => Self::from_raster(img.0, img.1, img.2),
            Err(e) => {
                let text: String = error_text(&e);
                let mut message = String::from_str("Failed to load image: ");
                message.append(text.as_str());
                Err(LoadError::Decode(message))
            },
        }
    }

    /// The width in pixels.
    pub fn width(&self) -> (w: u32)
        ensures
            w == self@.width,
    {
        self.width
    }

    /// The height in pixels.
    pub fn height(&self) -> (h: u32)
        ensures
            h == self@.height,
    {
        self.height
    }

    /// A copy of the pixels' bytes.
    pub fn get_pixels(&self) -> (p: Vec<u8>)
        ensures
            p@ == self@.pixels,
    {
        self.pixels.clone()
    }
}

} // verus!
