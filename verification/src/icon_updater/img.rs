//! Turning a submitted image into the payload that sets a server's icon.
//!
//! The `image` crate decodes, resizes and encodes; between those calls a
//! picture is held as plain values. What the crate decides from the bytes
//! alone is named: whether the format is known, whether the bytes decode and
//! to what size, and what the PNG encoder writes. The samples of a decoded
//! or resized picture are computed with arithmetic that may differ from
//! machine to machine, so of them only what is tested is known.
use std::io::Cursor;
use vstd::prelude::*;

verus! {

/// The error type of the `image` crate.
#[verifier::external_type_specification]
#[verifier::external_body]
pub struct ExImageError(image::ImageError);

/// Whether `image::guess_format` finds a format for the bytes: whether
/// they start with the signature of a format that the crate knows.
pub uninterp spec fn image_format_known(bytes: Seq<u8>) -> bool;

/// The width and height of the picture that the `image` crate decodes from
/// the bytes, read in the format that `image::guess_format` finds; nothing
/// where no format is found or decoding fails.
pub uninterp spec fn image_size(bytes: Seq<u8>) -> Option<(u32, u32)>;

/// The bytes that the `image` crate's PNG encoder writes for a picture of
/// 8-bit RGBA samples; nothing where it fails.
pub uninterp spec fn png_encoded(width: u32, height: u32, pixels: Seq<u8>) -> Option<Seq<u8>>;

/// The standard base64 text, with padding, of a byte string, as
/// `base64::prelude::BASE64_STANDARD` encodes it.
pub uninterp spec fn base64_standard(bytes: Seq<u8>) -> Seq<char>;

/// The side length, in pixels, of the square that every icon is fitted to.
pub const ICON_SIZE: u32 = 1024;

/// The longest that a side may become, in pixels, while a picture is
/// resized.
pub const MAX_SIDE: u64 = 4_294_967_294;

/// A decoded picture: rows of pixels, each pixel four 8-bit samples (red,
/// green, blue, alpha).
#[derive(Debug)]
pub struct Picture {
    pub width: u32,
    pub height: u32,
    pub pixels: Vec<u8>,
}

/// Whether `pixels` holds a sample for every pixel of a picture that is
/// not empty.
pub open spec fn sound(width: u32, height: u32, pixels: Seq<u8>) -> bool {
    width > 0 && height > 0 && pixels.len() >= 4 * (width as int * height as int)
}

/// Whether `pixels` holds the samples of a picture that is not empty, and
/// nothing more.
pub open spec fn exact(width: u32, height: u32, pixels: Seq<u8>) -> bool {
    width > 0 && height > 0 && pixels.len() == 4 * (width as int * height as int)
}

/// Whether a picture of the given size can be scaled to cover a rectangle
/// of `to_width` by `to_height` without a side growing beyond `MAX_SIDE`.
pub open spec fn scalable(width: u32, height: u32, to_width: u32, to_height: u32) -> bool {
    width as int * to_height as int <= MAX_SIDE as int * height as int && height as int
        * to_width as int <= MAX_SIDE as int * width as int
}

impl Picture {
    /// Whether the picture is not empty and has all its samples.
    pub open spec fn wf(&self) -> bool {
        sound(self.width, self.height, self.pixels@)
    }

    /// Whether the picture is not empty and has all its samples.
    pub fn is_sound(&self) -> (b: bool)
        ensures
            b == self.wf(),
    {
        if self.width == 0 || self.height == 0 {
            return false;
        }
        let width: u128 = self.width as u128;
        let height: u128 = self.height as u128;
        assert(width * height <= 0xFFFF_FFFF * 0xFFFF_FFFF) by (nonlinear_arith)
            requires
                0 <= width <= 0xFFFF_FFFF,
                0 <= height <= 0xFFFF_FFFF,
        ;
        self.pixels.len() as u128 >= 4 * (width * height)
    }

    /// Whether the picture is not empty and holds its samples and nothing
    /// more.
    pub fn is_exact(&self) -> (b: bool)
        ensures
            b == exact(self.width, self.height, self.pixels@),
    {
        if self.width == 0 || self.height == 0 {
            return false;
        }
        let width: u128 = self.width as u128;
        let height: u128 = self.height as u128;
        assert(width * height <= 0xFFFF_FFFF * 0xFFFF_FFFF) by (nonlinear_arith)
            requires
                0 <= width <= 0xFFFF_FFFF,
                0 <= height <= 0xFFFF_FFFF,
        ;
        self.pixels.len() as u128 == 4 * (width * height)
    }

    /// Whether the picture can be scaled to cover a rectangle of `to_width`
    /// by `to_height`.
    pub fn is_scalable(&self, to_width: u32, to_height: u32) -> (b: bool)
        ensures
            b == scalable(self.width, self.height, to_width, to_height),
    {
        let width: u128 = self.width as u128;
        let height: u128 = self.height as u128;
        let to_width: u128 = to_width as u128;
        let to_height: u128 = to_height as u128;
        let limit: u128 = MAX_SIDE as u128;
        assert(width * to_height <= 0xFFFF_FFFF * 0xFFFF_FFFF && height * to_width <= 0xFFFF_FFFF
            * 0xFFFF_FFFF && limit * height <= 0xFFFF_FFFF * 0xFFFF_FFFF && limit * width
            <= 0xFFFF_FFFF * 0xFFFF_FFFF) by (nonlinear_arith)
            requires
                0 <= width <= 0xFFFF_FFFF,
                0 <= height <= 0xFFFF_FFFF,
                0 <= to_width <= 0xFFFF_FFFF,
                0 <= to_height <= 0xFFFF_FFFF,
                0 <= limit <= 0xFFFF_FFFF,
        ;
        width * to_height <= limit * height && height * to_width <= limit * width
    }
}

/// Asks `image::guess_format` whether the bytes start with the signature
/// of a format that the crate knows. The answer rests on the bytes and the
/// crate's own list of signatures, nothing else.
#[verifier::external_body]
fn has_known_format(input: &Vec<u8>) -> (known: bool)
    ensures
        known == image_format_known(input@),
{
    image::guess_format(input.as_slice()).is_ok()
}

/// Finds the format with `image::guess_format`, builds a reader of that
/// format with `image::ImageReader::with_format`, calls its `decode` and
/// takes the picture's size and, with `into_rgba8`, its samples. Whether the
/// bytes decode, and to what size, is named; of the samples nothing is
/// claimed.
#[verifier::external_body]
fn decode(input: Vec<u8>) -> (r: Result<Picture, image::ImageError>)
    ensures
        match r {
            Ok(picture) => image_size(input@) == Some((picture.width, picture.height)),
            Err(_) => image_size(input@) is None,
        },
{
    let format = image::guess_format(input.as_slice())?;
    let img = image::ImageReader::with_format(Cursor::new(input), format).decode()?.into_rgba8();
    Ok(Picture { width: img.width(), height: img.height(), pixels: img.into_raw() })
}

/// Calls `image::DynamicImage::resize_to_fill` with the Lanczos filter on
/// the picture and takes the result's size and samples. The picture must not
/// be empty, and no side may grow beyond what the crate can count while it
/// scales the picture to cover the rectangle. Nothing is claimed of the
/// picture that comes back.
#[verifier::external_body]
fn resize_to_fill(picture: &Picture, width: u32, height: u32) -> (r: Picture)
    requires
        picture.wf(),
        width > 0,
        height > 0,
        scalable(picture.width, picture.height, width, height),
{
    let img = image::RgbaImage::from_raw(picture.width, picture.height, picture.pixels.clone())
        .expect("the samples fill the picture");
    let out = image::DynamicImage::ImageRgba8(img).resize_to_fill(
        width,
        height,
        image::imageops::FilterType::Lanczos3,
    ).into_rgba8();
    Picture { width: out.width(), height: out.height(), pixels: out.into_raw() }
}

/// Calls `image::DynamicImage::write_with_encoder` with the crate's PNG
/// encoder on the picture and hands back the bytes written. The encoder
/// wants exactly the samples of the picture.
#[verifier::external_body]
fn encode_png(picture: &Picture) -> (r: Result<Vec<u8>, image::ImageError>)
    requires
        exact(picture.width, picture.height, picture.pixels@),
    ensures
        match r {
            Ok(png) => png_encoded(picture.width, picture.height, picture.pixels@) == Some(png@),
            Err(_) => png_encoded(picture.width, picture.height, picture.pixels@) is None,
        },
{
    let img = image::RgbaImage::from_raw(picture.width, picture.height, picture.pixels.clone())
        .expect("the samples fill the picture");
    let mut buf = Vec::new();
    image::DynamicImage::ImageRgba8(img).write_with_encoder(
        image::codecs::png::PngEncoder::new(std::io::BufWriter::new(&mut buf)),
    ).map(|_| buf)
}

/// Calls `encode` of `base64::prelude::BASE64_STANDARD`: the result is the
/// standard padded base64 text of the bytes.
#[verifier::external_body]
fn base64_encode(bytes: &Vec<u8>) -> (text: String)
    ensures
        text@ == base64_standard(bytes@),
{
    base64::Engine::encode(&base64::prelude::BASE64_STANDARD, bytes)
}

/// Why an image cannot be used as an icon.
#[derive(Clone, Copy, Debug, PartialEq, Eq, Structural)]
pub enum IconError {
    /// The bytes are empty or in no image format that is known.
    UnsupportedFormat,
    /// The bytes could not be decoded as a picture of the format they
    /// claim.
    Decode,
    /// The picture could not be fitted to the icon square and written as
    /// PNG.
    Encode,
}

/// The data URI under which PNG bytes with the base64 text `encoded` are
/// sent.
pub open spec fn data_uri(encoded: Seq<char>) -> Seq<char> {
    "data:image/png;base64,"@ + encoded
}

/// What a picture that was fitted to the icon square comes to: unless it
/// has the size of the icon and exactly its samples, nothing; else what the
/// PNG encoder makes of it, as a payload.
pub open spec fn encoded_spec(width: u32, height: u32, pixels: Seq<u8>) -> Result<
    Seq<char>,
    IconError,
> {
    if width != ICON_SIZE || height != ICON_SIZE || !exact(width, height, pixels) {
        Err(IconError::Encode)
    } else {
        match png_encoded(width, height, pixels) {
            Some(png) => Ok(data_uri(base64_standard(png))),
            None => Err(IconError::Encode),
        }
    }
}

/// The error that image bytes are refused with whatever the samples of the
/// picture are: bytes that are empty or of no known format, bytes that do
/// not decode or decode to an empty picture, and a picture that is too long
/// for its width, or the other way round, to be scaled.
pub open spec fn refusal(bytes: Seq<u8>) -> Option<IconError> {
    if bytes.len() == 0 || !image_format_known(bytes) {
        Some(IconError::UnsupportedFormat)
    } else {
        match image_size(bytes) {
            None => Some(IconError::Decode),
            Some((width, height)) => if width == 0 || height == 0 {
                Some(IconError::Decode)
            } else if !scalable(width, height, ICON_SIZE, ICON_SIZE) {
                Some(IconError::Encode)
            } else {
                None
            },
        }
    }
}

/// Whether `r` is the result that `expected` describes: the same error, or
/// a string with the expected text.
pub open spec fn gives(r: Result<String, IconError>, expected: Result<Seq<char>, IconError>)
    -> bool {
    match expected {
        Ok(text) => r matches Ok(payload) && payload@ == text,
        Err(error) => r == Err::<String, IconError>(error),
    }
}

/// Whether `payload` carries, as PNG, a picture of `ICON_SIZE` by
/// `ICON_SIZE` pixels with the samples `pixels`.
pub open spec fn shows(payload: Seq<char>, pixels: Seq<u8>) -> bool {
    &&& exact(ICON_SIZE, ICON_SIZE, pixels)
    &&& png_encoded(ICON_SIZE, ICON_SIZE, pixels) is Some
    &&& payload == data_uri(base64_standard(png_encoded(ICON_SIZE, ICON_SIZE, pixels)->0))
}

/// Whether `r` is a result that a picture of some samples can give: a
/// payload that shows a picture of the icon's size, or a refusal.
pub open spec fn is_icon_result(r: Result<String, IconError>) -> bool {
    match r {
        Ok(payload) => exists|pixels: Seq<u8>| #[trigger] shows(payload@, pixels),
        Err(error) => error == IconError::Decode || error == IconError::Encode,
    }
}

/// The payload for PNG bytes: a data URI that carries them in base64.
pub fn icon_payload(png: &Vec<u8>) -> (payload: String)
    ensures
        payload@ == data_uri(base64_standard(png@)),
{
    let encoded = base64_encode(png);
    let mut payload = String::from_str("data:image/png;base64,");
    payload.append(encoded.as_str());
    payload
}

/// Encodes a picture that was fitted to the icon square as the payload of
/// an icon update. A picture of another size, or with samples missing or
/// left over, is refused.
pub fn encode_icon(picture: &Picture) -> (r: Result<String, IconError>)
    ensures
        gives(r, encoded_spec(picture.width, picture.height, picture.pixels@)),
{
    if picture.width != ICON_SIZE || picture.height != ICON_SIZE || !picture.is_exact() {
        return Err(IconError::Encode);
    }
    match encode_png(picture) {
        Ok(png) => Ok(icon_payload(&png)),
        Err(_) => Err(IconError::Encode),
    }
}

/// Fits a decoded picture to the icon square and encodes it as the payload
/// of an icon update. A picture that cannot be scaled is refused; of
/// another, the payload shows a picture of the icon's size, whatever the
/// resizing made of the samples.
pub fn fit_icon(picture: &Picture) -> (r: Result<String, IconError>)
    requires
        picture.wf(),
    ensures
        !scalable(picture.width, picture.height, ICON_SIZE, ICON_SIZE) ==> r == Err::<
            String,
            IconError,
        >(IconError::Encode),
        r is Ok ==> exists|pixels: Seq<u8>| #[trigger] shows(r->Ok_0@, pixels),
        r is Err ==> r == Err::<String, IconError>(IconError::Encode),
{
    if !picture.is_scalable(ICON_SIZE, ICON_SIZE) {
        return Err(IconError::Encode);
    }
    let resized = resize_to_fill(picture, ICON_SIZE, ICON_SIZE);
    let r = encode_icon(&resized);
    assert(r is Ok ==> shows(r->Ok_0@, resized.pixels@));
    r
}

/// Decodes an image, fits it to the icon square and encodes it as the
/// payload of an icon update: the data URI of a PNG of `ICON_SIZE` by
/// `ICON_SIZE` pixels.
///
/// Empty bytes and bytes of no known format are refused as
/// `UnsupportedFormat`, bytes that do not decode to a picture as `Decode`,
/// and a picture that cannot be fitted or written as `Encode`. Which bytes
/// are refused on these grounds depends on the bytes alone; of the others,
/// the decoder, the resizing and the encoder decide.
pub fn process_icon(input: Vec<u8>) -> (r: Result<String, IconError>)
    ensures
        refusal(input@) matches Some(error) ==> r == Err::<String, IconError>(error),
        refusal(input@) is None ==> is_icon_result(r),
        r is Ok ==> exists|pixels: Seq<u8>| #[trigger] shows(r->Ok_0@, pixels),
{
    if input.len() == 0 {
        return Err(IconError::UnsupportedFormat);
    }
    if !has_known_format(&input) {
        return Err(IconError::UnsupportedFormat);
    }
    let picture = match decode(input) {
        Ok(picture) => picture,
        Err(_) => {
            return Err(IconError::Decode);
        },
    };
    if picture.width == 0 || picture.height == 0 {
        return Err(IconError::Decode);
    }
    if !picture.is_scalable(ICON_SIZE, ICON_SIZE) {
        return Err(IconError::Encode);
    }
    if !picture.is_sound() {
        return Err(IconError::Decode);
    }
    fit_icon(&picture)
}

} // verus!
