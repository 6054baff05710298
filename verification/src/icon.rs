//! The window icon: decoding the embedded image into RGBA pixels.
use vstd::prelude::*;

verus! {

/// An image as 8-bit RGBA pixels, row by row.
pub struct IconImage {
    pub rgba: Vec<u8>,
    pub width: u32,
    pub height: u32,
}

/// A decoded image, or the text of the decoding error, as plain values.
pub open spec fn icon_view(r: Result<IconImage, String>) -> Result<(Seq<u8>, u32, u32), Seq<char>> {
    match r {
        Ok(i) => Ok((i.rgba@, i.width, i.height)),
        Err(e) => Err(e@),
    }
}

/// What the `image` crate makes of encoded image bytes: RGBA pixels and size,
/// or its error text.
pub uninterp spec fn decoded_image(bytes: Seq<u8>) -> Result<(Seq<u8>, u32, u32), Seq<char>>;

/// Decodes image bytes by the format their header shows
/// (`image::load_from_memory`; this build enables PNG), converted to RGBA
/// (`to_rgba8`).
#[verifier::external_body]
fn decode_image(bytes: &[u8]) -> (r: Result<IconImage, String>)
    ensures
        icon_view(r) == decoded_image(bytes@),
{
    match image::load_from_memory(bytes) {
        Ok(img) => {
            let rgba = img.to_rgba8();
            let (width, height) = rgba.dimensions();
            Ok(IconImage { rgba: rgba.into_raw(), width, height })
        },
        Err(e) => Err(e.to_string()),
    }
}

/// The error line shown when the icon cannot be decoded.
pub open spec fn icon_error_message(e: Seq<char>) -> Seq<char> {
    "解析应用图标失败: "@ + e
}

/// The icon decoded from image bytes; when they cannot be decoded, the message
/// to report, naming the decoder's error.
pub fn load_icon_data(bytes: &[u8]) -> (r: Result<IconImage, String>)
    ensures
        match decoded_image(bytes@) {
            Ok(i) => icon_view(r) == Ok::<(Seq<u8>, u32, u32), Seq<char>>(i),
            Err(e) => r matches Err(m) && m@ == icon_error_message(e),
        },
{
    match decode_image(bytes) {
        Ok(i) => Ok(i),
        Err(e) => {
            let mut m = "解析应用图标失败: ".to_owned();
            m.append(e.as_str());
            Err(m)
        },
    }
}

} // verus!
