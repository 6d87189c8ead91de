//! The forms in which the pixel values of a frame are handed out.
//!
//! Image files are written by the `image` crate and text by the `base64`
//! crate; this module decides what is handed to them and what becomes of
//! their answers.
use vstd::prelude::*;
use vstd::slice::slice_to_vec;
use vstd::string::*;
use crate::errors::{CineError, CineResult};

verus! {

/// The form in which a frame is asked for.
#[derive(Debug, Clone, Copy, PartialEq, Eq, Structural)]
pub enum FrameType {
    /// The PNG file as base64 text.
    Base64,
    /// The pixel values as bytes, low byte first.
    Bytes,
    /// A 16-bit grayscale PNG file.
    Png,
    /// The pixel values as they are.
    Raw,
}

/// A frame in the form that was asked for.
#[derive(Debug)]
pub enum FrameData {
    Base64(String),
    Bytes(Vec<u8>),
    Png(Vec<u8>),
    Raw(Vec<u16>),
}

/// The file format in which a frame is to be saved.
#[derive(Debug, Clone, Copy, PartialEq, Eq, Structural)]
pub enum SaveType {
    Jpeg,
    Mp4,
    Png,
}

/// The bytes of the file to save.
#[derive(Debug)]
pub enum SaveData {
    Jpeg(Vec<u8>),
    Mp4(Vec<u8>),
    Png(Vec<u8>),
}

/// `image::ImageError`, carried from the encoder to where it is turned
/// into a conversion error.
#[verifier::external_type_specification]
#[verifier::external_body]
pub struct ExImageError(image::ImageError);

/// The PNG file that the `image` crate writes for a 16-bit grayscale image
/// of `width` by `height` pixels, with its fast compression and without a
/// row filter.
pub uninterp spec fn png_encoding(pixels: Seq<u16>, width: u32, height: u32) -> Seq<u8>;

/// The text that the `base64` crate's standard engine gives for `bytes`.
pub uninterp spec fn base64_standard(bytes: Seq<u8>) -> Seq<char>;

/// `image::codecs::png::PngEncoder::write_image` for 16-bit grayscale
/// pixels, on an encoder made by `new_with_quality` with
/// `CompressionType::Fast` and `FilterType::NoFilter` that writes into a
/// vector. The encoder panics unless the buffer holds two bytes for every
/// pixel, which the precondition provides for. The bound on the two
/// dimensions is that of the PNG format, and keeps the run of equal bytes
/// that the compressor counts in one row within 32 bits; the bound on the
/// number of pixels keeps the sizes that the encoder computes within
/// `usize`. Claimed: the bytes written are a function of the pixel values
/// and the two dimensions. Nothing is claimed of when it fails.
#[verifier::external_body]
fn encode_png(pixels: &[u16], width: u32, height: u32) -> (r: Result<Vec<u8>, image::ImageError>)
    requires
        1 <= width <= PNG_MAX_DIMENSION,
        1 <= height <= PNG_MAX_DIMENSION,
        pixels@.len() == width * height,
        8 * pixels@.len() <= usize::MAX,
    ensures
        r is Ok ==> r->Ok_0@ == png_encoding(pixels@, width, height),
{
    let mut out: Vec<u8> = Vec::new();
    let encoder = image::codecs::png::PngEncoder::new_with_quality(
        &mut out,
        image::codecs::png::CompressionType::Fast,
        image::codecs::png::FilterType::NoFilter,
    );
    image::ImageEncoder::write_image(
        encoder,
        bytemuck::cast_slice(pixels),
        width,
        height,
        image::ExtendedColorType::L16,
    )?;
    Ok(out)
}

/// The message of an `image::ImageError`, as its `Display` writes it.
/// Nothing is claimed of the text.
#[verifier::external_body]
fn image_error_text(error: &image::ImageError) -> (text: String) {
    format!("{}", error)
}

/// `base64::Engine::encode` on `base64::engine::general_purpose::STANDARD`.
/// It panics where the length of the text does not fit in `usize`, which
/// the precondition rules out. Claimed: the text is a function of the
/// bytes.
#[verifier::external_body]
fn encode_base64(bytes: &[u8]) -> (text: String)
    requires
        bytes@.len() / 3 * 4 + 4 <= usize::MAX,
    ensures
        text@ == base64_standard(bytes@),
{
    base64::Engine::encode(&base64::engine::general_purpose::STANDARD, bytes)
}

/// The bytes of `pixels`, two for each value, low byte first.
pub open spec fn le_bytes(pixels: Seq<u16>) -> Seq<u8> {
    Seq::new(
        2 * pixels.len(),
        |i: int|
            if i % 2 == 0 {
                (pixels[i / 2] % 0x100) as u8
            } else {
                (pixels[i / 2] / 0x100) as u8
            },
    )
}

/// The largest width and the largest height of a PNG image.
pub const PNG_MAX_DIMENSION: u32 = 0x7fff_ffff;

/// Whether an image of `width` by `height` pixels held in `len` values can
/// be handed to the PNG encoder: it has a pixel, neither dimension is above
/// what the format allows, there is one value for each pixel, and eight
/// bytes for each value can be addressed.
pub open spec fn png_ready(len: int, width: u32, height: u32) -> bool {
    &&& 1 <= width <= PNG_MAX_DIMENSION
    &&& 1 <= height <= PNG_MAX_DIMENSION
    &&& len == width * height
    &&& 8 * len <= usize::MAX
}

/// What becomes of the encoder's answer: its bytes, or a conversion error
/// that carries its message.
pub fn png_outcome(encoded: Result<Vec<u8>, image::ImageError>) -> (r: CineResult<Vec<u8>>)
    ensures
        encoded is Ok ==> r is Ok && r->Ok_0 == encoded->Ok_0,
        encoded is Err ==> r is Err && r->Err_0 is Conversion,
{
    match encoded {
        Ok(bytes) => Ok(bytes),
        Err(error) => {
            let cause = image_error_text(&error);
            Err(CineError::conversion("png", cause.as_str()))
        },
    }
}

impl FrameType {
    /// `pixels` in the form `self`. The two PNG forms take a grayscale
    /// image: they fail unless `pixels` holds one value for each of the
    /// `width` by `height` pixels.
    pub fn format(&self, pixels: &[u16], width: u32, height: u32) -> (r: CineResult<FrameData>)
        ensures
            *self == FrameType::Raw ==> r is Ok && r->Ok_0 is Raw && r->Ok_0->Raw_0@ == pixels@,
            *self == FrameType::Bytes ==> r is Ok && r->Ok_0 is Bytes && r->Ok_0->Bytes_0@
                == le_bytes(pixels@),
            *self == FrameType::Png ==> (r is Ok ==> r->Ok_0 is Png && r->Ok_0->Png_0@
                == png_encoding(pixels@, width, height)),
            *self == FrameType::Base64 ==> (r is Ok ==> r->Ok_0 is Base64 && r->Ok_0->Base64_0@
                == base64_standard(png_encoding(pixels@, width, height))),
            r is Err ==> r->Err_0 is Conversion,
            (*self == FrameType::Png || *self == FrameType::Base64) && !png_ready(
                pixels@.len() as int,
                width,
                height,
            ) ==> r is Err,
    {
        match self {
            Self::Base64 => Ok(FrameData::Base64(Self::return_base64(pixels, width, height)?)),
            Self::Bytes => Ok(FrameData::Bytes(Self::return_bytes(pixels)?)),
            Self::Png => Ok(FrameData::Png(Self::return_png(pixels, width, height)?)),
            Self::Raw => Ok(FrameData::Raw(Self::return_raw(pixels, width, height)?)),
        }
    }

    /// The PNG file of the image, as base64 text.
    pub fn return_base64(pixels: &[u16], width: u32, height: u32) -> (r: CineResult<String>)
        ensures
            r is Ok ==> r->Ok_0@ == base64_standard(png_encoding(pixels@, width, height)),
            r is Err ==> r->Err_0 is Conversion,
            !png_ready(pixels@.len() as int, width, height) ==> r is Err,
    {
        let img_png = Self::return_png(pixels, width, height)?;
        Self::base64_text(img_png)
    }

    /// The base64 text of a PNG file. Fails where the text would be longer
    /// than can be addressed.
    pub fn base64_text(img_png: Vec<u8>) -> (r: CineResult<String>)
        ensures
            img_png@.len() / 3 * 4 + 4 <= usize::MAX ==> r is Ok && r->Ok_0@ == base64_standard(
                img_png@,
            ),
            img_png@.len() / 3 * 4 + 4 > usize::MAX ==> r is Err && r->Err_0 is Conversion,
    {
        if img_png.len() / 3 > (usize::MAX - 4) / 4 {
            return Err(CineError::conversion("base64", "the image is too large"));
        }
        Ok(encode_base64(img_png.as_slice()))
    }

    /// The pixel values as bytes, low byte first.
    pub fn return_bytes(pixels: &[u16]) -> (r: CineResult<Vec<u8>>)
        ensures
            r is Ok,
            r->Ok_0@ == le_bytes(pixels@),
    {
        let n: usize = pixels.len();
        let mut bytes: Vec<u8> = Vec::new();
        let mut i: usize = 0;
        while i < n
            invariant
                n == pixels@.len(),
                i <= n,
                bytes@.len() == 2 * i,
                forall|k: int| 0 <= k < 2 * i ==> bytes@[k] == le_bytes(pixels@)[k],
            decreases n - i,
        {
            let value: u16 = pixels[i];
            bytes.push((value % 0x100) as u8);
            bytes.push((value / 0x100) as u8);
            i += 1;
        }
        Ok(bytes)
    }

    /// The PNG file of the grayscale image of `width` by `height` pixels.
    pub fn return_png(pixels: &[u16], width: u32, height: u32) -> (r: CineResult<Vec<u8>>)
        ensures
            r is Ok ==> r->Ok_0@ == png_encoding(pixels@, width, height),
            r is Err ==> r->Err_0 is Conversion,
            !png_ready(pixels@.len() as int, width, height) ==> r is Err,
    {
        let n: usize = pixels.len();
        assert(width * height <= 0xffff_ffff * 0xffff_ffff) by (nonlinear_arith)
            requires
                width <= 0xffff_ffff,
                height <= 0xffff_ffff,
        ;
        if width == 0 || height == 0 || width > PNG_MAX_DIMENSION || height > PNG_MAX_DIMENSION || n
            > usize::MAX / 8 || (width as u64) * (height as u64) != n as u64 {
            return Err(
                CineError::conversion("png", "the image does not hold one value for each pixel"),
            );
        }
        png_outcome(encode_png(pixels, width, height))
    }

    /// The pixel values as they are.
    pub fn return_raw(pixels: &[u16], width: u32, height: u32) -> (r: CineResult<Vec<u16>>)
        ensures
            r is Ok,
            r->Ok_0@ == pixels@,
    {
        Ok(slice_to_vec(pixels))
    }
}

impl SaveType {
    /// The bytes of the file that holds `pixels` in the format `self`.
    /// Only PNG files are written; the other formats are refused.
    pub fn format(&self, pixels: &[u16], width: u32, height: u32) -> (r: CineResult<SaveData>)
        ensures
            *self == SaveType::Png ==> (r is Ok ==> r->Ok_0 is Png && r->Ok_0->Png_0@
                == png_encoding(pixels@, width, height)),
            *self == SaveType::Png ==> (r is Err ==> r->Err_0 is Conversion),
            *self == SaveType::Png && !png_ready(pixels@.len() as int, width, height) ==> r is Err,
            *self != SaveType::Png ==> r is Err && r->Err_0 is Unsupported,
    {
        match self {
            Self::Jpeg => Ok(SaveData::Jpeg(Self::return_jpeg(pixels, width, height)?)),
            Self::Mp4 => Ok(SaveData::Mp4(Self::return_mp4(pixels, width, height)?)),
            Self::Png => Ok(SaveData::Png(Self::return_png(pixels, width, height)?)),
        }
    }

    /// JPEG files are not written.
    pub fn return_jpeg(pixels: &[u16], width: u32, height: u32) -> (r: CineResult<Vec<u8>>)
        ensures
            r is Err && r->Err_0 is Unsupported,
    {
        Err(CineError::unsupported("jpeg export is not implemented"))
    }

    /// MP4 files are not written.
    pub fn return_mp4(pixels: &[u16], width: u32, height: u32) -> (r: CineResult<Vec<u8>>)
        ensures
            r is Err && r->Err_0 is Unsupported,
    {
        Err(CineError::unsupported("mp4 export is not implemented"))
    }

    /// The PNG file of the grayscale image of `width` by `height` pixels.
    pub fn return_png(pixels: &[u16], width: u32, height: u32) -> (r: CineResult<Vec<u8>>)
        ensures
            r is Ok ==> r->Ok_0@ == png_encoding(pixels@, width, height),
            r is Err ==> r->Err_0 is Conversion,
            !png_ready(pixels@.len() as int, width, height) ==> r is Err,
    {
        FrameType::return_png(pixels, width, height)
    }
}

/// The bytes of `pixels`, two for each value, high byte first.
pub open spec fn be_bytes(pixels: Seq<u16>) -> Seq<u8> {
    Seq::new(
        2 * pixels.len(),
        |i: int|
            if i % 2 == 0 {
                (pixels[i / 2] / 0x100) as u8
            } else {
                (pixels[i / 2] % 0x100) as u8
            },
    )
}

/// `bytemuck::cast_slice` from 16-bit values to bytes: the values as they
/// lie in memory. Claimed: two bytes for each value, in the byte order of
/// the machine, whichever of the two it is.
#[verifier::external_body]
fn memory_bytes(pixels: &[u16]) -> (bytes: &[u8])
    ensures
        bytes@ == le_bytes(pixels@) || bytes@ == be_bytes(pixels@),
{
    bytemuck::cast_slice(pixels)
}

impl AsRef<[u8]> for FrameData {
    fn as_ref(&self) -> (bytes: &[u8])
        ensures
            match *self {
                FrameData::Base64(text) => bytes@ == vstd::utf8::encode_utf8(text@),
                FrameData::Bytes(held) => bytes@ == held@,
                FrameData::Png(held) => bytes@ == held@,
                FrameData::Raw(held) => bytes@ == le_bytes(held@) || bytes@ == be_bytes(held@),
            },
    {
        match self {
            FrameData::Base64(text) => text.as_str().as_bytes(),
            FrameData::Bytes(held) => held.as_slice(),
            FrameData::Png(held) => held.as_slice(),
            FrameData::Raw(held) => memory_bytes(held.as_slice()),
        }
    }
}

impl AsRef<[u8]> for SaveData {
    fn as_ref(&self) -> (bytes: &[u8])
        ensures
            match *self {
                SaveData::Jpeg(held) => bytes@ == held@,
                SaveData::Mp4(held) => bytes@ == held@,
                SaveData::Png(held) => bytes@ == held@,
            },
    {
        match self {
            SaveData::Jpeg(held) => held.as_slice(),
            SaveData::Mp4(held) => held.as_slice(),
            SaveData::Png(held) => held.as_slice(),
        }
    }
}

} // verus!
