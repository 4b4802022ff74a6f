//! Classification of a payload: a one-line preview and a MIME type.

use vstd::prelude::*;
use vstd::utf8::{decode_utf8, valid_utf8};

use crate::size::{decimal, human_readable_size, decimal_string, size_text};
use crate::text::{
    has_prefix, last_segment, last_segment_of, starts_with, trim_text, trimmed, utf8_text,
};

verus! {

/// The most characters that the preview of a text payload keeps.
pub const PREVIEW_LENGTH: usize = 100;

/// Why a payload could not be classified.
#[derive(Debug, Clone, Copy, PartialEq, Eq, Structural)]
pub enum ClassifyError {
    /// The payload was sniffed as an image, but its header could not be read.
    ImageHeader,
}

#[verifier::external_type_specification]
#[verifier::external_body]
pub struct ExImageError(image_meta::ImageError);

/// The MIME type that `infer` gives to a payload, if one of its signatures matches.
pub uninterp spec fn sniffed_mime(data: Seq<u8>) -> Option<Seq<char>>;

/// The width and height that `image_meta` reads from an image header, if it can.
pub uninterp spec fn image_dimensions_of(data: Seq<u8>) -> Option<(u32, u32)>;

/// Relies on `infer::get` and `Type::mime_type`: the MIME type of the first entry of
/// infer's signature table that the bytes match; it depends on the bytes alone.
#[verifier::external_body]
fn sniff_mime(data: &[u8]) -> (r: Option<String>)
    ensures
        r is Some <==> sniffed_mime(data@) is Some,
        r matches Some(m) ==> sniffed_mime(data@) == Some(m@),
{
    match infer::get(data) {
        Some(kind) => Some(kind.mime_type().to_string()),
        None => None,
    }
}

/// Relies on `image_meta::load_from_buf`: the width and height read from an image
/// header, or its error where no supported header can be read; it depends on the
/// bytes alone. Its JPEG reader subtracts 2 from each segment length without a check,
/// so the bytes must hold no length below 2 where that reader looks.
#[verifier::external_body]
fn image_dimensions(data: &[u8]) -> (r: Result<(u32, u32), image_meta::ImageError>)
    requires
        jpeg_lengths_ok(data@),
    ensures
        r is Ok <==> image_dimensions_of(data@) is Some,
        r matches Ok(d) ==> image_dimensions_of(data@) == Some(d),
{
    match image_meta::load_from_buf(data) {
        Ok(meta) => Ok((meta.dimensions.width, meta.dimensions.height)),
        Err(e) => Err(e),
    }
}

/// The preview of a text: trimmed, then cut to its first `PREVIEW_LENGTH` characters.
pub open spec fn text_preview(t: Seq<char>) -> Seq<char> {
    let s = trimmed(t);
    if s.len() <= PREVIEW_LENGTH {
        s
    } else {
        s.take(PREVIEW_LENGTH as int)
    }
}

/// The preview of an image of `len` bytes, format `format` and `width` by `height` pixels.
pub open spec fn image_preview(len: nat, format: Seq<char>, width: u32, height: u32) -> Seq<char> {
    "[[binary data "@ + size_text(len) + " "@ + format + " "@ + decimal(width as nat) + "x"@
        + decimal(height as nat) + "]]"@
}

/// The preview of a recognised payload of `len` bytes that is not an image.
pub open spec fn binary_preview(len: nat) -> Seq<char> {
    "[[binary data "@ + size_text(len) + "]]"@
}

/// The preview of an unrecognised payload of `len` bytes.
pub open spec fn unknown_preview(len: nat) -> Seq<char> {
    "[[UNKNOWN "@ + size_text(len) + "]]"@
}

/// Whether `b` is a JPEG start-of-frame marker, whose segment holds the dimensions.
pub open spec fn is_sof_marker(b: u8) -> bool {
    b == 0xC0 || b == 0xC1 || b == 0xC2 || b == 0xC3 || b == 0xC5 || b == 0xC6 || b == 0xC7
        || b == 0xC9 || b == 0xCA || b == 0xCB || b == 0xCD || b == 0xCE || b == 0xCF
}

/// Walks the JPEG segment headers of `d` from position `i`, as a reader that looks for
/// the first start-of-frame segment does: a `0xFF` prefix, fill bytes `0xFF`, a marker,
/// then a big-endian length that counts its own two bytes. Holds unless a length below
/// 2 is met before the walk ends (at the end of `d`, at a byte that is no prefix, or at
/// a start-of-frame segment). `at_marker` tells that the prefix at `i - 1` was read.
pub open spec fn jpeg_walk_ok(d: Seq<u8>, i: int, at_marker: bool) -> bool
    decreases d.len() - i,
{
    if i < 0 || i >= d.len() {
        true
    } else if !at_marker {
        if d[i] != 0xFF {
            true
        } else {
            jpeg_walk_ok(d, i + 1, true)
        }
    } else if d[i] == 0xFF {
        jpeg_walk_ok(d, i + 1, true)
    } else if i + 2 >= d.len() {
        true
    } else {
        let v = d[i + 1] as int * 256 + d[i + 2] as int;
        if v < 2 {
            false
        } else if is_sof_marker(d[i]) {
            true
        } else if i + 1 + v >= d.len() {
            true
        } else {
            jpeg_walk_ok(d, i + 1 + v, false)
        }
    }
}

/// Whether no JPEG segment length below 2 is met before the first start-of-frame
/// segment of a payload that begins with the JPEG start-of-image bytes `FF D8`.
pub open spec fn jpeg_lengths_ok(d: Seq<u8>) -> bool {
    !(d.len() >= 2 && d[0] == 0xFF && d[1] == 0xD8) || jpeg_walk_ok(d, 2, false)
}

/// The dimensions of an image payload: none where its JPEG segment lengths are bad,
/// else what `image_meta` reads.
pub open spec fn image_dimensions_checked(d: Seq<u8>) -> Option<(u32, u32)> {
    if jpeg_lengths_ok(d) {
        image_dimensions_of(d)
    } else {
        None
    }
}

/// The view of an optional string.
pub open spec fn opt_view(m: Option<String>) -> Option<Seq<char>> {
    match m {
        Some(s) => Some(s@),
        None => None,
    }
}

/// The (preview, MIME type) of a payload that is not text, from its length, the MIME
/// type that its signature gives, if any, and its dimensions as an image, if read; or
/// `None` where it is an image whose dimensions could not be read.
pub open spec fn binary_classification(
    len: nat,
    mime: Option<Seq<char>>,
    dims: Option<(u32, u32)>,
) -> Option<(Seq<char>, Seq<char>)> {
    match mime {
        Some(m) => if has_prefix(m, "image/"@) {
            match dims {
                Some((w, h)) => Some((image_preview(len, last_segment(m), w, h), m)),
                None => None,
            }
        } else {
            Some((binary_preview(len), m))
        },
        None => Some((unknown_preview(len), "application/octet-stream"@)),
    }
}

/// The (preview, MIME type) of a payload, or `None` where it is sniffed as an image
/// whose header cannot be read.
pub open spec fn classification(data: Seq<u8>) -> Option<(Seq<char>, Seq<char>)> {
    if valid_utf8(data) {
        Some((text_preview(decode_utf8(data)), "text/plain"@))
    } else {
        binary_classification(data.len(), sniffed_mime(data), image_dimensions_checked(data))
    }
}

fn text_preview_of(t: &str) -> (r: String)
    ensures
        r@ == text_preview(t@),
{
    let s = trim_text(t);
    let n = s.as_str().unicode_len();
    if n <= PREVIEW_LENGTH {
        s
    } else {
        String::from_str(s.as_str().substring_char(0, PREVIEW_LENGTH))
    }
}

/// Whether no JPEG segment length below 2 comes before the first start-of-frame
/// segment of `data`, where `data` begins with `FF D8`.
pub fn jpeg_segment_lengths_ok(data: &[u8]) -> (r: bool)
    ensures
        r == jpeg_lengths_ok(data@),
{
    let n = data.len();
    if !(n >= 2 && data[0] == 0xFF && data[1] == 0xD8) {
        return true;
    }
    let mut i: usize = 2;
    let mut at_marker = false;
    while i < n
        invariant
            n == data@.len(),
            2 <= i <= n,
            data@[0] == 0xFF && data@[1] == 0xD8,
            jpeg_walk_ok(data@, i as int, at_marker) == jpeg_walk_ok(data@, 2, false),
        decreases n - i,
    {
        if !at_marker {
            if data[i] != 0xFF {
                return true;
            }
            at_marker = true;
            i = i + 1;
        } else if data[i] == 0xFF {
            i = i + 1;
        } else if n - i <= 2 {
            return true;
        } else {
            let v: usize = data[i + 1] as usize * 256 + data[i + 2] as usize;
            let b = data[i];
            assert(v == data@[i + 1] as int * 256 + data@[i + 2] as int);
            if v < 2 {
                assert(!jpeg_walk_ok(data@, i as int, true));
                return false;
            }
            if b == 0xC0 || b == 0xC1 || b == 0xC2 || b == 0xC3 || b == 0xC5 || b == 0xC6
                || b == 0xC7 || b == 0xC9 || b == 0xCA || b == 0xCB || b == 0xCD || b == 0xCE
                || b == 0xCF {
                return true;
            }
            if v >= n - i - 1 {
                return true;
            }
            i = i + 1 + v;
            at_marker = false;
        }
    }
    true
}

/// Builds the (preview, MIME type) of a payload of `len` bytes that is not text:
/// `[[UNKNOWN size]]` and `application/octet-stream` where no signature matched;
/// `[[binary data size format WxH]]` for an image whose dimensions were read, and an
/// error for one whose dimensions were not; `[[binary data size]]` otherwise.
pub fn binary_preview_and_mime(len: usize, mime: Option<String>, dims: Option<(u32, u32)>) -> (r:
    Result<(String, String), ClassifyError>)
    ensures
        r is Ok <==> binary_classification(len as nat, opt_view(mime), dims) is Some,
        r matches Ok((p, m)) ==> binary_classification(len as nat, opt_view(mime), dims) == Some(
            (p@, m@),
        ),
        r matches Err(e) ==> e == ClassifyError::ImageHeader,
{
    let size = human_readable_size(len);
    match mime {
        Some(m) => {
            if starts_with(m.as_str(), "image/") {
                match dims {
                    Some((w, h)) => {
                        let mut p = String::from_str("[[binary data ");
                        p.append(size.as_str());
                        p.append(" ");
                        p.append(last_segment_of(m.as_str()).as_str());
                        p.append(" ");
                        p.append(decimal_string(w as u128).as_str());
                        p.append("x");
                        p.append(decimal_string(h as u128).as_str());
                        p.append("]]");
                        Ok((p, m))
                    },
                    None => Err(ClassifyError::ImageHeader),
                }
            } else {
                let mut p = String::from_str("[[binary data ");
                p.append(size.as_str());
                p.append("]]");
                Ok((p, m))
            }
        },
        None => {
            let mut p = String::from_str("[[UNKNOWN ");
            p.append(size.as_str());
            p.append("]]");
            Ok((p, String::from_str("application/octet-stream")))
        },
    }
}

/// Classifies a payload: valid UTF-8 is `text/plain` with a trimmed preview of at most
/// `PREVIEW_LENGTH` characters; other bytes are sniffed by signature, images with their
/// format and dimensions; bytes that match no signature are `application/octet-stream`.
pub fn generate_preview_and_mime_type(data: &[u8]) -> (r: Result<(String, String), ClassifyError>)
    ensures
        r is Ok <==> classification(data@) is Some,
        r matches Ok((p, m)) ==> classification(data@) == Some((p@, m@)),
        r matches Err(e) ==> e == ClassifyError::ImageHeader,
{
    if let Some(t) = utf8_text(data) {
        return Ok((text_preview_of(t.as_str()), String::from_str("text/plain")));
    }
    let mime = sniff_mime(data);
    let is_image = match &mime {
        Some(m) => starts_with(m.as_str(), "image/"),
        None => false,
    };
    let dims = if is_image && jpeg_segment_lengths_ok(data) {
        match image_dimensions(data) {
            Ok(d) => Some(d),
            Err(_) => None,
        }
    } else {
        None
    };
    proof {
        if is_image {
            assert(dims == image_dimensions_checked(data@));
        }
    }
    binary_preview_and_mime(data.len(), mime, dims)
}

} // verus!
