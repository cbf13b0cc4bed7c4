//! What the clipboard gives: an image itself, or the path of an image file.

use crate::models::enums::image_format::ImageFormat;
use crate::services::file_service::{detect_image_format, sniff_mime, sniffed_mime};
use crate::services::image_processor::{decode_as, spec_decoded, spec_shape};
use crate::services::thumbnail_service::Raster;
use crate::text::{chars_of, spec_starts_with, spec_trim, string_of, text_starts_with, trim_chars};
use vstd::prelude::*;

verus! {

/// Whether a media type is that of an image: it begins with `image/`.
pub open spec fn spec_is_image_mime(mime: Option<Seq<char>>) -> bool {
    match mime {
        Some(m) => spec_starts_with(m, "image/"@),
        None => false,
    }
}

/// Whether the content of a file is an image by its first bytes.
pub open spec fn spec_is_image_content(bytes: Seq<u8>) -> bool {
    spec_is_image_mime(sniffed_mime(bytes))
}

/// Whether a media type is that of an image; none is not.
pub fn is_image_mime(mime: &Option<String>) -> (r: bool)
    ensures
        r == spec_is_image_mime(
            match mime {
                Some(m) => Some(m@),
                None => None,
            },
        ),
{
    match mime {
        Some(m) => text_starts_with(m.as_str(), "image/"),
        None => false,
    }
}

/// The path that the text of the clipboard names: the text without the white
/// space around it.
pub fn clipboard_path(text: &str) -> (path: String)
    ensures
        path@ == spec_trim(text@),
{
    let chars = chars_of(text);
    let trimmed = trim_chars(&chars);
    string_of(&trimmed)
}

/// Loads an image from the content of a file.
///
/// The content has to be an image by its first bytes; it is then decoded in
/// the format that those bytes show. A file that is no image gives nothing,
/// and so does one that its own decoder refuses.
pub fn load_image_from_path(bytes: &[u8]) -> (loaded: Option<(Raster, ImageFormat)>)
    ensures
        !spec_is_image_content(bytes@) ==> loaded is None,
        spec_is_image_content(bytes@) ==> match loaded {
            Some(found) => {
                &&& found.1 == ImageFormat::spec_from_mime(sniffed_mime(bytes@))
                &&& found.0@.wf()
                &&& spec_decoded(bytes@, found.1) == Some(spec_shape(found.0@))
            },
            None => spec_decoded(bytes@, ImageFormat::spec_from_mime(sniffed_mime(bytes@)))
                is None,
        },
{
    let mime = sniff_mime(bytes);
    if !is_image_mime(&mime) {
        return None;
    }
    let format = detect_image_format(bytes);
    match decode_as(bytes, format) {
        None => None,
        Some(raster) => Some((raster, format)),
    }
}

/// The image that the clipboard gives.
///
/// `direct` is the image on the clipboard, if it holds one; it counts as PNG.
/// `file` is the content of the file that the text of the clipboard names, if
/// it names one. An image on the clipboard comes before a file.
pub fn get_clipboard_image(direct: Option<Raster>, file: Option<Vec<u8>>) -> (found: Option<
    (Raster, ImageFormat),
>)
    ensures
        direct matches Some(image) ==> found == Some((image, ImageFormat::Png)),
        direct is None && file is None ==> found is None,
        direct is None ==> match file {
            Some(bytes) => {
                &&& !spec_is_image_content(bytes@) ==> found is None
                &&& spec_is_image_content(bytes@) ==> match found {
                    Some(loaded) => {
                        &&& loaded.1 == ImageFormat::spec_from_mime(sniffed_mime(bytes@))
                        &&& loaded.0@.wf()
                        &&& spec_decoded(bytes@, loaded.1) == Some(spec_shape(loaded.0@))
                    },
                    None => spec_decoded(
                        bytes@,
                        ImageFormat::spec_from_mime(sniffed_mime(bytes@)),
                    ) is None,
                }
            },
            None => found is None,
        },
{
    match direct {
        Some(image) => Some((image, ImageFormat::Png)),
        None => match file {
            None => None,
            Some(bytes) => load_image_from_path(bytes.as_slice()),
        },
    }
}

} // verus!
