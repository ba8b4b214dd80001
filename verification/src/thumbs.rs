//! Thumbnail generation: turning image bytes into a PNG-encoded square
//! thumbnail, delegated to an external image-processing routine behind one
//! trusted call.
//!
//! The contract is exact only for the declared types of the allow-list
//! (`spec_supported_image`): there the delegate stays on its pure image
//! path — parse, decode, resize, PNG-encode — and every outcome is a
//! function of the arguments alone. For other declared types the delegate
//! may leave that path (for a `video/*` type it runs an external tool, so
//! the outcome depends on the machine), and the contract then fixes only
//! the handling of an unparseable type; the processor's allow-list keeps
//! such types from ever reaching this call.

use vstd::prelude::*;

use crate::events::spec_supported_image;

verus! {

/// Why no thumbnail came out of the generator.
#[derive(Clone, Copy, Debug, PartialEq, Eq, Structural)]
pub enum ThumbnailError {
    /// The declared MIME type could not be parsed.
    UnparseableType,
    /// The decode or resize step failed.
    CreationFailed,
    /// The generator returned no thumbnail variant.
    NoThumbnailProduced,
    /// The PNG encoding of the resized image failed.
    EncodingFailed,
}

impl ThumbnailError {
    /// The log line for a failed generation.
    pub fn message(&self) -> (r: &'static str)
        ensures
            *self is UnparseableType ==> r@ == "Unparseable MIME type"@,
            *self is CreationFailed ==> r@ == "Thumbnail creation failed"@,
            *self is NoThumbnailProduced ==> r@ == "No thumbnail created"@,
            *self is EncodingFailed ==> r@ == "Unknown error when Thumbnail::write_png"@,
    {
        match self {
            ThumbnailError::UnparseableType => "Unparseable MIME type",
            ThumbnailError::CreationFailed => "Thumbnail creation failed",
            ThumbnailError::NoThumbnailProduced => "No thumbnail created",
            ThumbnailError::EncodingFailed => "Unknown error when Thumbnail::write_png",
        }
    }
}

/// Whether `mime`'s parser accepts the string as a MIME type: a function
/// of the string alone.
pub uninterp spec fn mime_parses(mime_type: Seq<char>) -> bool;

/// Whether thumbnailer's `create_thumbnails` decodes the bytes under the
/// declared type; on the image path this is a function of those two alone.
pub uninterp spec fn thumbnail_decodes(bytes: Seq<u8>, mime_type: Seq<char>) -> bool;

/// Whether `Thumbnail::write_png` succeeds on the decoded image resized to
/// the given edge size; on the image path, a function of these three alone.
pub uninterp spec fn thumbnail_encodes(bytes: Seq<u8>, mime_type: Seq<char>, size: u32) -> bool;

/// The PNG bytes of the square thumbnail of the given image bytes under
/// the given declared type and edge size; on the image path, a function of
/// these three alone.
pub uninterp spec fn thumbnail_png_of(bytes: Seq<u8>, mime_type: Seq<char>, size: u32) -> Seq<u8>;

/// Relies on `mime`'s `FromStr` for `Mime` and on thumbnailer's
/// `create_thumbnails` and `Thumbnail::write_png`. An unparseable type is
/// the unparseable-type error and nothing else ever is. For an allow-listed
/// image type the call stays on thumbnailer's pure image path, so the whole
/// outcome is a function of the arguments: the result is the thumbnail
/// bytes exactly when decode and encode succeed, the creation error exactly
/// when the decode fails, and the encoding error exactly when only the
/// encode fails; with one requested size, `create_thumbnails` returns one
/// variant, so no other outcome exists.
#[verifier::external_body]
fn create_thumbnail_png(bytes: &Vec<u8>, mime_type: &str, size: u32) -> (r: Result<Vec<u8>, ThumbnailError>)
    ensures
        match r {
            Ok(v) => mime_parses(mime_type@) && (spec_supported_image(mime_type@)
                ==> thumbnail_decodes(bytes@, mime_type@) && thumbnail_encodes(bytes@, mime_type@, size)
                    && v@ == thumbnail_png_of(bytes@, mime_type@, size)),
            Err(e) => match e {
                ThumbnailError::UnparseableType => !mime_parses(mime_type@) && !spec_supported_image(mime_type@),
                ThumbnailError::CreationFailed => mime_parses(mime_type@) && (spec_supported_image(mime_type@)
                    ==> !thumbnail_decodes(bytes@, mime_type@)),
                ThumbnailError::NoThumbnailProduced => mime_parses(mime_type@) && !spec_supported_image(mime_type@),
                ThumbnailError::EncodingFailed => mime_parses(mime_type@) && (spec_supported_image(mime_type@)
                    ==> thumbnail_decodes(bytes@, mime_type@) && !thumbnail_encodes(bytes@, mime_type@, size)),
            },
        },
{
    let mime: mime::Mime = match mime_type.parse() {
        Ok(m) => m,
        Err(_) => return Err(ThumbnailError::UnparseableType),
    };
    let sizes = [thumbnailer::ThumbnailSize::Custom((size, size))];
    let reader = std::io::Cursor::new(bytes.clone());
    let mut thumbs = thumbnailer::create_thumbnails(reader, mime, sizes).map_err(|_|
        ThumbnailError::CreationFailed)?;
    let thumb = thumbs.pop().ok_or(ThumbnailError::NoThumbnailProduced)?;
    let mut buf = std::io::Cursor::new(Vec::new());
    thumb.write_png(&mut buf).map_err(|_| ThumbnailError::EncodingFailed)?;
    Ok(buf.into_inner())
}

/// Produces the PNG-encoded square thumbnail of the given image bytes, or
/// the exact reason none was produced: the unparseable-type error exactly
/// for an unparseable declared type and, for allow-listed image types, the
/// creation or encoding error exactly for the stage that failed.
pub fn get_thumbnail(bytes: &Vec<u8>, image_type: &str, size: u32) -> (r: Result<Vec<u8>, ThumbnailError>)
    ensures
        match r {
            Ok(v) => mime_parses(image_type@) && (spec_supported_image(image_type@)
                ==> thumbnail_decodes(bytes@, image_type@) && thumbnail_encodes(bytes@, image_type@, size)
                    && v@ == thumbnail_png_of(bytes@, image_type@, size)),
            Err(e) => match e {
                ThumbnailError::UnparseableType => !mime_parses(image_type@) && !spec_supported_image(image_type@),
                ThumbnailError::CreationFailed => mime_parses(image_type@) && (spec_supported_image(image_type@)
                    ==> !thumbnail_decodes(bytes@, image_type@)),
                ThumbnailError::NoThumbnailProduced => mime_parses(image_type@) && !spec_supported_image(image_type@),
                ThumbnailError::EncodingFailed => mime_parses(image_type@) && (spec_supported_image(image_type@)
                    ==> thumbnail_decodes(bytes@, image_type@) && !thumbnail_encodes(bytes@, image_type@, size)),
            },
        },
{
    create_thumbnail_png(bytes, image_type, size)
}

} // verus!
