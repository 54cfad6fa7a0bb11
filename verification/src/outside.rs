//! The calls this library makes into code that is not verified here. Each
//! function below is believed by its contract; its body is the call.

use vstd::prelude::*;
use crate::injection::{u16_bytes, ByteOrder};
use crate::item::Timestamp;

verus! {

/// The error with which the `base64` crate rejects a text. It is carried
/// through as it comes.
#[verifier::external_type_specification]
#[verifier::external_body]
pub struct ExBase64DecodeError(base64::DecodeError);

/// The error with which the `image` crate rejects the bytes of an image. It
/// is carried through as it comes.
#[verifier::external_type_specification]
#[verifier::external_body]
pub struct ExImageError(image::ImageError);

/// The PNG file that the `image` crate writes for `width` by `height` RGBA
/// pixels, or nothing where it reports an error.
pub uninterp spec fn png_encoding(width: u32, height: u32, pixels: Seq<u8>) -> Option<Seq<u8>>;

/// The standard base64 text, with padding, that the `base64` crate gives for
/// a run of bytes.
pub uninterp spec fn base64_text(bytes: Seq<u8>) -> Seq<char>;

/// The bytes that the `base64` crate reads out of a standard base64 text, or
/// nothing where it rejects the text.
pub uninterp spec fn base64_bytes(text: Seq<char>) -> Option<Seq<u8>>;

/// The RGBA pixels, four bytes each and row by row, that the PNG decoder of
/// the `image` crate reads out of a file, or nothing where it rejects the
/// bytes.
pub uninterp spec fn rgba_pixels(encoded: Seq<u8>) -> Option<Seq<u8>>;

/// A hexadecimal digit in lower case.
pub open spec fn is_lower_hex(c: char) -> bool {
    48 <= c as u32 <= 57 || 97 <= c as u32 <= 102
}

/// The hyphenated lower-case form of a version 4 UUID: 36 characters in
/// groups of 8, 4, 4, 4 and 12 hexadecimal digits, the third group starting
/// with `4` and the fourth with one of `8`, `9`, `a`, `b`.
pub open spec fn is_uuid_v4_text(s: Seq<char>) -> bool {
    &&& s.len() == 36
    &&& forall|i: int|
        0 <= i < 36 ==> if i == 8 || i == 13 || i == 18 || i == 23 {
            #[trigger] s[i] == '-'
        } else {
            is_lower_hex(s[i])
        }
    &&& s[14] == '4'
    &&& (s[19] == '8' || s[19] == '9' || s[19] == 'a' || s[19] == 'b')
}

/// Appends one character with `String::push`: the text afterwards is the
/// text before followed by `c`.
#[verifier::external_body]
pub(crate) fn push_char(s: &mut String, c: char)
    ensures
        final(s)@ == old(s)@.push(c),
{
    s.push(c)
}

/// Compares two string slices with `str::eq`, which is true exactly when
/// they hold the same characters.
#[verifier::external_body]
pub(crate) fn str_equal(a: &str, b: &str) -> (same: bool)
    ensures
        same == (a@ == b@),
{
    a == b
}

/// The two bytes of `x` as `u16::to_ne_bytes` lays them out: in the order of
/// the machine, which is one of the two orders.
#[verifier::external_body]
pub(crate) fn native_bytes_u16(x: u16) -> (bytes: [u8; 2])
    ensures
        bytes@ == u16_bytes(ByteOrder::LittleEndian, x) || bytes@ == u16_bytes(
            ByteOrder::BigEndian,
            x,
        ),
{
    x.to_ne_bytes()
}

/// Draws a random identifier with `uuid::Uuid::new_v4` and renders it with
/// its `Display`. Which identifier comes back is left open; its form is
/// that of every version 4 UUID. The call does not return where the
/// operating system hands out no random bytes.
#[verifier::external_body]
pub(crate) fn fresh_id() -> (id: String)
    ensures
        is_uuid_v4_text(id@),
{
    uuid::Uuid::new_v4().to_string()
}

/// Reads the clock with `chrono::Utc::now`, as whole seconds since the Unix
/// epoch and the nanoseconds within the second. Which instant comes back is
/// left open. The call does not return where the clock of the machine stands
/// before 1970.
#[verifier::external_body]
pub(crate) fn current_time() -> (now: Timestamp)
    ensures
        now.is_valid(),
{
    let now = chrono::Utc::now();
    Timestamp { secs: now.timestamp(), nanos: now.timestamp_subsec_nanos() }
}

/// Encodes RGBA pixels as PNG with `image::DynamicImage::write_to`, on an
/// image made with `image::RgbaImage::from_raw`. The buffer must hold
/// exactly the pixels of the image: a shorter one makes no image, and on a
/// longer one the encoder panics.
#[verifier::external_body]
pub(crate) fn encode_png(width: u32, height: u32, pixels: &[u8]) -> (png: Option<Vec<u8>>)
    requires
        pixels@.len() == 4 * width * height,
    ensures
        png matches Some(bytes) ==> png_encoding(width, height, pixels@) == Some(bytes@),
        png is None ==> png_encoding(width, height, pixels@) is None,
{
    let image = image::RgbaImage::from_raw(width, height, pixels.to_vec())?;
    let mut out = std::io::Cursor::new(Vec::new());
    image::DynamicImage::ImageRgba8(image).write_to(&mut out, image::ImageFormat::Png).ok()?;
    Some(out.into_inner())
}

/// Encodes bytes with `base64::Engine::encode` of the `STANDARD` engine. The
/// length of the text, four characters for every three bytes begun, must
/// fit the machine.
#[verifier::external_body]
pub(crate) fn encode_base64(bytes: &[u8]) -> (text: String)
    requires
        (bytes@.len() / 3 + 1) * 4 <= usize::MAX,
    ensures
        text@ == base64_text(bytes@),
{
    base64::Engine::encode(&base64::engine::general_purpose::STANDARD, bytes)
}

/// Decodes a text with `base64::Engine::decode` of the `STANDARD` engine.
#[verifier::external_body]
pub(crate) fn decode_base64(text: &str) -> (bytes: Result<Vec<u8>, base64::DecodeError>)
    ensures
        bytes matches Ok(b) ==> base64_bytes(text@) == Some(b@),
        bytes is Err ==> base64_bytes(text@) is None,
{
    base64::Engine::decode(&base64::engine::general_purpose::STANDARD, text)
}

/// Decodes a PNG file with `image::load_from_memory_with_format`, which
/// reads it as the format it is told and asks nothing else, and converts the
/// image to RGBA bytes with `to_rgba8` and `into_raw`.
#[verifier::external_body]
pub(crate) fn decode_rgba(encoded: &[u8]) -> (pixels: Result<Vec<u8>, image::ImageError>)
    ensures
        pixels matches Ok(p) ==> rgba_pixels(encoded@) == Some(p@),
        pixels is Err ==> rgba_pixels(encoded@) is None,
{
    let image = image::load_from_memory_with_format(encoded, image::ImageFormat::Png)?;
    Ok(image.to_rgba8().into_raw())
}

} // verus!
