//! In memory images: their bytes, format and size, and the names under which they are stored.

use crate::document::{hex_lower, sha256, sha256_digest};
use crate::error::ChonkitError;
use crate::text::{chars_of, push_str, str_eq, string_from_range};
use vstd::prelude::*;

verus! {

/// Image formats, as the `image` crate knows them.
#[derive(Debug, Clone, Copy, PartialEq, Eq, Structural)]
pub enum ImageFormat {
    Png,
    Jpeg,
    Gif,
    WebP,
    Pnm,
    Tiff,
    Tga,
    Dds,
    Bmp,
    Ico,
    Hdr,
    OpenExr,
    Farbfeld,
    Avif,
    Qoi,
    Pcx,
}

/// The first file extension of a format, as `ImageFormat::extensions_str` lists it.
pub open spec fn format_extension(f: ImageFormat) -> Seq<char> {
    match f {
        ImageFormat::Png => "png"@,
        ImageFormat::Jpeg => "jpg"@,
        ImageFormat::Gif => "gif"@,
        ImageFormat::WebP => "webp"@,
        ImageFormat::Pnm => "pbm"@,
        ImageFormat::Tiff => "tiff"@,
        ImageFormat::Tga => "tga"@,
        ImageFormat::Dds => "dds"@,
        ImageFormat::Bmp => "bmp"@,
        ImageFormat::Ico => "ico"@,
        ImageFormat::Hdr => "hdr"@,
        ImageFormat::OpenExr => "exr"@,
        ImageFormat::Farbfeld => "ff"@,
        ImageFormat::Avif => "avif"@,
        ImageFormat::Qoi => "qoi"@,
        ImageFormat::Pcx => "pcx"@,
    }
}

impl ImageFormat {
    /// The first file extension of the format.
    pub fn extension(&self) -> (res: &'static str)
        ensures
            res@ == format_extension(*self),
    {
        match self {
            ImageFormat::Png => "png",
            ImageFormat::Jpeg => "jpg",
            ImageFormat::Gif => "gif",
            ImageFormat::WebP => "webp",
            ImageFormat::Pnm => "pbm",
            ImageFormat::Tiff => "tiff",
            ImageFormat::Tga => "tga",
            ImageFormat::Dds => "dds",
            ImageFormat::Bmp => "bmp",
            ImageFormat::Ico => "ico",
            ImageFormat::Hdr => "hdr",
            ImageFormat::OpenExr => "exr",
            ImageFormat::Farbfeld => "ff",
            ImageFormat::Avif => "avif",
            ImageFormat::Qoi => "qoi",
            ImageFormat::Pcx => "pcx",
        }
    }

    /// The format whose first extension is `ext`, if any.
    pub fn from_first_extension(ext: &str) -> (res: Option<ImageFormat>)
        ensures
            res == format_of_extension(ext@),
    {
        if str_eq(ext, "png") {
            Some(ImageFormat::Png)
        } else if str_eq(ext, "jpg") {
            Some(ImageFormat::Jpeg)
        } else if str_eq(ext, "gif") {
            Some(ImageFormat::Gif)
        } else if str_eq(ext, "webp") {
            Some(ImageFormat::WebP)
        } else if str_eq(ext, "pbm") {
            Some(ImageFormat::Pnm)
        } else if str_eq(ext, "tiff") {
            Some(ImageFormat::Tiff)
        } else if str_eq(ext, "tga") {
            Some(ImageFormat::Tga)
        } else if str_eq(ext, "dds") {
            Some(ImageFormat::Dds)
        } else if str_eq(ext, "bmp") {
            Some(ImageFormat::Bmp)
        } else if str_eq(ext, "ico") {
            Some(ImageFormat::Ico)
        } else if str_eq(ext, "hdr") {
            Some(ImageFormat::Hdr)
        } else if str_eq(ext, "exr") {
            Some(ImageFormat::OpenExr)
        } else if str_eq(ext, "ff") {
            Some(ImageFormat::Farbfeld)
        } else if str_eq(ext, "avif") {
            Some(ImageFormat::Avif)
        } else if str_eq(ext, "qoi") {
            Some(ImageFormat::Qoi)
        } else if str_eq(ext, "pcx") {
            Some(ImageFormat::Pcx)
        } else {
            None
        }
    }
}

/// The format whose first extension is `ext`, if any.
pub open spec fn format_of_extension(ext: Seq<char>) -> Option<ImageFormat> {
    if ext == "png"@ {
        Some(ImageFormat::Png)
    } else if ext == "jpg"@ {
        Some(ImageFormat::Jpeg)
    } else if ext == "gif"@ {
        Some(ImageFormat::Gif)
    } else if ext == "webp"@ {
        Some(ImageFormat::WebP)
    } else if ext == "pbm"@ {
        Some(ImageFormat::Pnm)
    } else if ext == "tiff"@ {
        Some(ImageFormat::Tiff)
    } else if ext == "tga"@ {
        Some(ImageFormat::Tga)
    } else if ext == "dds"@ {
        Some(ImageFormat::Dds)
    } else if ext == "bmp"@ {
        Some(ImageFormat::Bmp)
    } else if ext == "ico"@ {
        Some(ImageFormat::Ico)
    } else if ext == "hdr"@ {
        Some(ImageFormat::Hdr)
    } else if ext == "exr"@ {
        Some(ImageFormat::OpenExr)
    } else if ext == "ff"@ {
        Some(ImageFormat::Farbfeld)
    } else if ext == "avif"@ {
        Some(ImageFormat::Avif)
    } else if ext == "qoi"@ {
        Some(ImageFormat::Qoi)
    } else if ext == "pcx"@ {
        Some(ImageFormat::Pcx)
    } else {
        None
    }
}

/// Image obtained when loading from document storage.
pub struct ImageData {
    /// Image bytes.
    pub bytes: Vec<u8>,
    /// Image format.
    pub format: ImageFormat,
    pub width: u32,
    pub height: u32,
}

/// The width and height of the image that `image::load_from_memory` decodes from `bytes`.
pub uninterp spec fn decoded_dimensions(bytes: Seq<u8>) -> Option<(u32, u32)>;

/// The first extension of the format that `image::guess_format` finds for `bytes`.
pub uninterp spec fn guessed_extension(bytes: Seq<u8>) -> Option<Seq<char>>;

/// `image::load_from_memory`: the dimensions of the decoded image, named
/// [decoded_dimensions]; an error where the bytes do not decode.
#[verifier::external_body]
fn decode_dimensions(bytes: &[u8]) -> (res: Result<(u32, u32), image::ImageError>)
    ensures
        match res {
            Ok(d) => decoded_dimensions(bytes@) == Some(d),
            Err(_) => decoded_dimensions(bytes@) is None,
        },
{
    let img = image::load_from_memory(bytes)?;
    Ok((img.width(), img.height()))
}

/// `image::guess_format`: the first extension of the guessed format, named
/// [guessed_extension]; an error where no format is recognised. In the version used, every
/// `image::ImageFormat` is one of the sixteen formats of [ImageFormat], whose first extensions
/// [format_extension] lists as `extensions_str` does, so the extension names one of them.
#[verifier::external_body]
fn guess_extension(bytes: &[u8]) -> (res: Result<&'static str, image::ImageError>)
    ensures
        match res {
            Ok(e) => guessed_extension(bytes@) == Some(e@) && format_of_extension(e@) is Some,
            Err(_) => guessed_extension(bytes@) is None,
        },
{
    let format = image::guess_format(bytes)?;
    Ok(format.extensions_str()[0])
}

impl ImageData {
    /// Decode `bytes` to learn the image's dimensions and format.
    pub fn from_raw_bytes(bytes: &[u8]) -> (res: Result<Self, ChonkitError>)
        ensures
            res is Ok <==> (decoded_dimensions(bytes@) is Some && guessed_extension(bytes@) is Some),
            res matches Ok(d) ==> {
                &&& d.bytes@ == bytes@
                &&& decoded_dimensions(bytes@) == Some((d.width, d.height))
                &&& format_of_extension(guessed_extension(bytes@)->0) == Some(d.format)
            },
    {
        let (width, height) = match decode_dimensions(bytes) {
            Ok(d) => d,
            Err(e) => return Err(ChonkitError::Image(e)),
        };
        let ext = match guess_extension(bytes) {
            Ok(e) => e,
            Err(e) => return Err(ChonkitError::Image(e)),
        };
        let format = match ImageFormat::from_first_extension(ext) {
            Some(f) => f,
            None => {
                return Err(ChonkitError::InvalidFile("unrecognised image format".to_owned()));
            },
        };
        Ok(ImageData { bytes: vstd::slice::slice_to_vec(bytes), format, width, height })
    }

    /// Size of the image bytes in whole mebibytes, rounded down.
    pub fn size_in_mb(&self) -> (res: usize)
        ensures
            res == self.bytes@.len() / 1048576,
    {
        self.bytes.len() / 1048576
    }

    /// Number of `patch_size` by `patch_size` patches that fit in the image.
    pub fn estimate_tokens(&self, patch_size: u32) -> (res: u32)
        requires
            patch_size > 0,
            (self.width / patch_size) * (self.height / patch_size) <= u32::MAX,
        ensures
            res == (self.width / patch_size) * (self.height / patch_size),
    {
        (self.width / patch_size) * (self.height / patch_size)
    }
}

/// In memory representation of an image.
pub struct Image {
    /// The image data, including the bytes, format, width and height.
    pub image: ImageData,
    /// An optional description of the image, populated during parsing or when a user saves the
    /// image description, used for embedding purposes.
    pub description: Option<String>,
    /// The page of the document the image was found in (if originating from a document).
    pub page_number: Option<usize>,
    /// The number of the image on the page (if originating from a document).
    pub image_number: Option<usize>,
}

/// SHA256 hash of the image bytes, optionally appended with the image description before hashing.
///
/// Obtained via [Image::hash].
pub struct ImageHash(pub String);

/// The bytes that identify an image: its bytes, followed by the UTF-8 encoding of its
/// description when it has one.
pub open spec fn image_hash_input(bytes: Seq<u8>, description: Option<Seq<char>>) -> Seq<u8> {
    match description {
        Some(d) => bytes + vstd::utf8::encode_utf8(d),
        None => bytes,
    }
}

impl Image {
    pub fn new(
        page_number: Option<usize>,
        image_number: Option<usize>,
        bytes: Vec<u8>,
        format: ImageFormat,
        width: u32,
        height: u32,
    ) -> (res: Self)
        ensures
            res.page_number == page_number,
            res.image_number == image_number,
            res.image.bytes@ == bytes@,
            res.image.format == format,
            res.image.width == width,
            res.image.height == height,
            res.description is None,
    {
        Self {
            page_number,
            image_number,
            image: ImageData { bytes, format, width, height },
            description: None,
        }
    }

    /// The path to the image in image storage: `<BYTES_HASH>.<EXTENSION>`.
    pub fn path(&self) -> (res: String)
        ensures
            res@ == hex_lower(sha256_digest(self.image.bytes@)) + "."@ + format_extension(
                self.image.format,
            ),
    {
        let mut p = sha256(self.image.bytes.as_slice());
        push_str(&mut p, ".");
        push_str(&mut p, self.image.format.extension());
        p
    }

    /// If the image has a description, it is appended to the bytes before hashing.
    /// Otherwise, the hash of the image bytes is returned.
    pub fn hash(&self) -> (res: ImageHash)
        ensures
            res.0@ == hex_lower(
                sha256_digest(
                    image_hash_input(
                        self.image.bytes@,
                        match self.description {
                            Some(d) => Some(d@),
                            None => None,
                        },
                    ),
                ),
            ),
    {
        match &self.description {
            Some(description) => {
                let mut bytes: Vec<u8> = Vec::new();
                let src = &self.image.bytes;
                let mut i: usize = 0;
                while i < src.len()
                    invariant
                        i <= src@.len(),
                        bytes@ == src@.take(i as int),
                    decreases src.len() - i,
                {
                    bytes.push(src[i]);
                    i = i + 1;
                    assert(bytes@ =~= src@.take(i as int));
                }
                let extra = description.as_str().as_bytes();
                let mut j: usize = 0;
                while j < extra.len()
                    invariant
                        j <= extra@.len(),
                        bytes@ == src@ + extra@.take(j as int),
                    decreases extra.len() - j,
                {
                    bytes.push(extra[j]);
                    j = j + 1;
                    assert(bytes@ =~= src@ + extra@.take(j as int));
                }
                assert(extra@.take(extra@.len() as int) =~= extra@);
                ImageHash(sha256(bytes.as_slice()))
            },
            None => ImageHash(sha256(self.image.bytes.as_slice())),
        }
    }
}

/// The MIME type of a format, as `ImageFormat::to_mime_type` gives it.
pub open spec fn format_mime(f: ImageFormat) -> Seq<char> {
    match f {
        ImageFormat::Avif => "image/avif"@,
        ImageFormat::Jpeg => "image/jpeg"@,
        ImageFormat::Png => "image/png"@,
        ImageFormat::Gif => "image/gif"@,
        ImageFormat::WebP => "image/webp"@,
        ImageFormat::Tiff => "image/tiff"@,
        ImageFormat::Tga => "image/x-targa"@,
        ImageFormat::Dds => "image/vnd-ms.dds"@,
        ImageFormat::Bmp => "image/bmp"@,
        ImageFormat::Ico => "image/x-icon"@,
        ImageFormat::Hdr => "image/vnd.radiance"@,
        ImageFormat::OpenExr => "image/x-exr"@,
        ImageFormat::Pnm => "image/x-portable-anymap"@,
        ImageFormat::Qoi => "image/x-qoi"@,
        ImageFormat::Farbfeld => "application/octet-stream"@,
        ImageFormat::Pcx => "image/vnd.zbrush.pcx"@,
    }
}

/// The format a MIME type names, as `ImageFormat::from_mime_type` finds it.
pub open spec fn format_of_mime(m: Seq<char>) -> Option<ImageFormat> {
    if m == "image/avif"@ {
        Some(ImageFormat::Avif)
    } else if m == "image/jpeg"@ {
        Some(ImageFormat::Jpeg)
    } else if m == "image/png"@ {
        Some(ImageFormat::Png)
    } else if m == "image/gif"@ {
        Some(ImageFormat::Gif)
    } else if m == "image/webp"@ {
        Some(ImageFormat::WebP)
    } else if m == "image/tiff"@ {
        Some(ImageFormat::Tiff)
    } else if m == "image/x-targa"@ || m == "image/x-tga"@ {
        Some(ImageFormat::Tga)
    } else if m == "image/vnd-ms.dds"@ {
        Some(ImageFormat::Dds)
    } else if m == "image/bmp"@ {
        Some(ImageFormat::Bmp)
    } else if m == "image/x-icon"@ || m == "image/vnd.microsoft.icon"@ {
        Some(ImageFormat::Ico)
    } else if m == "image/vnd.radiance"@ {
        Some(ImageFormat::Hdr)
    } else if m == "image/x-exr"@ {
        Some(ImageFormat::OpenExr)
    } else if m == "image/x-portable-bitmap"@ || m == "image/x-portable-graymap"@ || m
        == "image/x-portable-pixmap"@ || m == "image/x-portable-anymap"@ {
        Some(ImageFormat::Pnm)
    } else if m == "image/x-qoi"@ {
        Some(ImageFormat::Qoi)
    } else {
        None
    }
}

impl ImageFormat {
    /// The MIME type of the format.
    pub fn mime_type(&self) -> (res: &'static str)
        ensures
            res@ == format_mime(*self),
    {
        match self {
            ImageFormat::Avif => "image/avif",
            ImageFormat::Jpeg => "image/jpeg",
            ImageFormat::Png => "image/png",
            ImageFormat::Gif => "image/gif",
            ImageFormat::WebP => "image/webp",
            ImageFormat::Tiff => "image/tiff",
            ImageFormat::Tga => "image/x-targa",
            ImageFormat::Dds => "image/vnd-ms.dds",
            ImageFormat::Bmp => "image/bmp",
            ImageFormat::Ico => "image/x-icon",
            ImageFormat::Hdr => "image/vnd.radiance",
            ImageFormat::OpenExr => "image/x-exr",
            ImageFormat::Pnm => "image/x-portable-anymap",
            ImageFormat::Qoi => "image/x-qoi",
            ImageFormat::Farbfeld => "application/octet-stream",
            ImageFormat::Pcx => "image/vnd.zbrush.pcx",
        }
    }

    /// The format a MIME type names, if any.
    pub fn from_mime_type(m: &str) -> (res: Option<ImageFormat>)
        ensures
            res == format_of_mime(m@),
    {
        if str_eq(m, "image/avif") {
            Some(ImageFormat::Avif)
        } else if str_eq(m, "image/jpeg") {
            Some(ImageFormat::Jpeg)
        } else if str_eq(m, "image/png") {
            Some(ImageFormat::Png)
        } else if str_eq(m, "image/gif") {
            Some(ImageFormat::Gif)
        } else if str_eq(m, "image/webp") {
            Some(ImageFormat::WebP)
        } else if str_eq(m, "image/tiff") {
            Some(ImageFormat::Tiff)
        } else if str_eq(m, "image/x-targa") || str_eq(m, "image/x-tga") {
            Some(ImageFormat::Tga)
        } else if str_eq(m, "image/vnd-ms.dds") {
            Some(ImageFormat::Dds)
        } else if str_eq(m, "image/bmp") {
            Some(ImageFormat::Bmp)
        } else if str_eq(m, "image/x-icon") || str_eq(m, "image/vnd.microsoft.icon") {
            Some(ImageFormat::Ico)
        } else if str_eq(m, "image/vnd.radiance") {
            Some(ImageFormat::Hdr)
        } else if str_eq(m, "image/x-exr") {
            Some(ImageFormat::OpenExr)
        } else if str_eq(m, "image/x-portable-bitmap") || str_eq(m, "image/x-portable-graymap")
            || str_eq(m, "image/x-portable-pixmap") || str_eq(m, "image/x-portable-anymap") {
            Some(ImageFormat::Pnm)
        } else if str_eq(m, "image/x-qoi") {
            Some(ImageFormat::Qoi)
        } else {
            None
        }
    }
}

/// The text that the standard base64 engine (with padding) encodes `bytes` to.
pub uninterp spec fn base64_encoded(bytes: Seq<u8>) -> Seq<char>;

/// The bytes that the standard base64 engine decodes `text` to, if it is canonical base64.
pub uninterp spec fn base64_decoded(text: Seq<char>) -> Option<Seq<u8>>;

/// The width and height of the image that `image::load_from_memory_with_format` decodes from
/// `bytes`, in the format that `ImageFormat::from_mime_type` finds for `mime`.
pub uninterp spec fn decoded_dimensions_as(bytes: Seq<u8>, mime: Seq<char>) -> Option<(u32, u32)>;

/// `base64::engine::general_purpose::STANDARD.encode`: the text, named [base64_encoded]; the
/// engine decodes what it encoded back to the same bytes.
#[verifier::external_body]
fn b64_encode(bytes: &[u8]) -> (res: String)
    ensures
        res@ == base64_encoded(bytes@),
        base64_decoded(res@) == Some(bytes@),
{
    base64::Engine::encode(&base64::engine::general_purpose::STANDARD, bytes)
}

/// `base64::engine::general_purpose::STANDARD.decode`: the bytes, named [base64_decoded]; an
/// error where the text is not canonical padded base64.
#[verifier::external_body]
fn b64_decode(text: &str) -> (res: Result<Vec<u8>, base64::DecodeError>)
    ensures
        match res {
            Ok(b) => base64_decoded(text@) == Some(b@),
            Err(_) => base64_decoded(text@) is None,
        },
{
    base64::Engine::decode(&base64::engine::general_purpose::STANDARD, text)
}

/// `image::load_from_memory_with_format`, in the format `ImageFormat::from_mime_type` gives for
/// `mime`: the dimensions of the decoded image, named [decoded_dimensions_as]; `None` where
/// the bytes do not decode in that format (the decoder's error is not kept).
#[verifier::external_body]
fn decode_dimensions_as(bytes: &[u8], mime: &str) -> (res: Option<(u32, u32)>)
    ensures
        res == decoded_dimensions_as(bytes@, mime@),
{
    let format = image::ImageFormat::from_mime_type(mime)?;
    let img = image::load_from_memory_with_format(bytes, format).ok()?;
    Some((img.width(), img.height()))
}

/// The index of the first occurrence of `pat` in `s` at or after `i`, or `-1`.
pub open spec fn find_from(s: Seq<char>, pat: Seq<char>, i: int) -> int
    decreases s.len() + 1 - i,
{
    if i < 0 || i + pat.len() > s.len() {
        -1
    } else if s.subrange(i, i + pat.len()) == pat {
        i
    } else {
        find_from(s, pat, i + 1)
    }
}

/// The MIME type and the base64 text of a data URI `data:<mime>;base64,<text>`, split at the
/// first `;base64,`.
pub open spec fn data_uri_parts(uri: Seq<char>) -> Option<(Seq<char>, Seq<char>)> {
    let prefix = "data:"@;
    let sep = ";base64,"@;
    if uri.len() >= prefix.len() && uri.subrange(0, prefix.len() as int) == prefix {
        let k = find_from(uri, sep, prefix.len() as int);
        if k < 0 {
            None
        } else {
            Some((uri.subrange(prefix.len() as int, k), uri.subrange(k + sep.len(), uri.len() as int)))
        }
    } else {
        None
    }
}

/// The data URI of an image in a format, with base64 text `text`.
pub open spec fn data_uri(f: ImageFormat, text: Seq<char>) -> Seq<char> {
    "data:"@ + format_mime(f) + ";base64,"@ + text
}

proof fn lemma_find_from(s: Seq<char>, pat: Seq<char>, i: int)
    requires
        0 <= i,
    ensures
        find_from(s, pat, i) >= 0 ==> i <= find_from(s, pat, i) && find_from(s, pat, i) + pat.len()
            <= s.len() && s.subrange(find_from(s, pat, i), find_from(s, pat, i) + pat.len()) == pat,
        find_from(s, pat, i) >= -1,
    decreases s.len() + 1 - i,
{
    if i + pat.len() <= s.len() && s.subrange(i, i + pat.len()) != pat {
        lemma_find_from(s, pat, i + 1);
    }
}

/// The first index at or after `i` where `pat` occurs in `s`.
pub(crate) fn find_pattern(s: &Vec<char>, pat: &Vec<char>, i: usize) -> (res: Option<usize>)
    requires
        i <= s@.len(),
    ensures
        match res {
            Some(k) => k == find_from(s@, pat@, i as int),
            None => find_from(s@, pat@, i as int) == -1,
        },
{
    let mut j = i;
    while pat.len() <= s.len() - j
        invariant
            i <= j <= s@.len(),
            find_from(s@, pat@, i as int) == find_from(s@, pat@, j as int),
        decreases s@.len() - j,
    {
        let mut k: usize = 0;
        let mut same = true;
        while k < pat.len()
            invariant
                k <= pat@.len(),
                j + pat@.len() <= s@.len(),
                s@.len() <= usize::MAX,
                same <==> (forall|m: int| 0 <= m < k ==> s@[j + m] == pat@[m]),
            decreases pat@.len() - k,
        {
            if s[j + k] != pat[k] {
                same = false;
            }
            k += 1;
        }
        if same {
            assert(s@.subrange(j as int, j + pat@.len()) =~= pat@);
            return Some(j);
        }
        assert(s@.subrange(j as int, j + pat@.len()) != pat@) by {
            let m = choose|m: int| 0 <= m < pat@.len() && s@[j + m] != pat@[m];
            assert(s@.subrange(j as int, j + pat@.len())[m] != pat@[m]);
        }
        j += 1;
    }
    None
}

impl ImageData {
    /// The image as a data URI: `data:<mime>;base64,<bytes in base64>`.
    pub fn to_b64_data_uri(&self) -> (res: String)
        ensures
            res@ == data_uri(self.format, base64_encoded(self.bytes@)),
            base64_decoded(base64_encoded(self.bytes@)) == Some(self.bytes@),
    {
        let mut uri = "data:".to_owned();
        push_str(&mut uri, self.format.mime_type());
        push_str(&mut uri, ";base64,");
        let text = b64_encode(self.bytes.as_slice());
        push_str(&mut uri, text.as_str());
        uri
    }

    /// Read an image from a data URI `data:<mime>;base64,<text>`: the MIME type names the
    /// format, and the bytes must decode as an image in it.
    pub fn from_b64_data_uri(uri: &str) -> (res: Result<Self, ChonkitError>)
        ensures
            match data_uri_parts(uri@) {
                None => res matches Err(ChonkitError::InvalidFile(m)) && m@ == "Invalid data URI"@,
                Some((mime, text)) => match format_of_mime(mime) {
                    None => res matches Err(ChonkitError::InvalidFile(m)) && m@
                        == "Invalid mime type: "@ + mime,
                    Some(f) => match base64_decoded(text) {
                        None => res matches Err(ChonkitError::Base64(_)),
                        Some(bytes) => match decoded_dimensions_as(bytes, mime) {
                            None => res matches Err(ChonkitError::InvalidFile(_)),
                            Some((w, h)) => res matches Ok(d) && d.bytes@ == bytes && d.format
                                == f && d.width == w && d.height == h,
                        },
                    },
                },
            },
    {
        proof {
            reveal_strlit("data:");
            reveal_strlit(";base64,");
        }
        let cs = chars_of(uri);
        let prefix = chars_of("data:");
        let sep = chars_of(";base64,");
        if cs.len() < prefix.len() {
            return Err(ChonkitError::InvalidFile("Invalid data URI".to_owned()));
        }
        let mut i: usize = 0;
        while i < prefix.len()
            invariant
                i <= prefix@.len() <= cs@.len(),
                cs@ == uri@,
                prefix@ == "data:"@,
                forall|m: int| 0 <= m < i ==> cs@[m] == prefix@[m],
            decreases prefix@.len() - i,
        {
            if cs[i] != prefix[i] {
                assert(cs@.subrange(0, prefix@.len() as int)[i as int] != prefix@[i as int]);
                return Err(ChonkitError::InvalidFile("Invalid data URI".to_owned()));
            }
            i += 1;
        }
        assert(cs@.subrange(0, 5) =~= prefix@);
        let k = match find_pattern(&cs, &sep, 5) {
            Some(k) => k,
            None => {
                return Err(ChonkitError::InvalidFile("Invalid data URI".to_owned()));
            },
        };
        proof {
            lemma_find_from(cs@, sep@, 5);
        }
        let mime = string_from_range(&cs, 5, k);
        let text = string_from_range(&cs, k + 8, cs.len());
        let format = match ImageFormat::from_mime_type(mime.as_str()) {
            Some(f) => f,
            None => {
                let mut m = "Invalid mime type: ".to_owned();
                push_str(&mut m, mime.as_str());
                return Err(ChonkitError::InvalidFile(m));
            },
        };
        let bytes = match b64_decode(text.as_str()) {
            Ok(b) => b,
            Err(e) => {
                return Err(ChonkitError::Base64(e));
            },
        };
        let (width, height) = match decode_dimensions_as(bytes.as_slice(), mime.as_str()) {
            Some(d) => d,
            None => {
                return Err(ChonkitError::InvalidFile("Invalid image data".to_owned()));
            },
        };
        Ok(ImageData { bytes, format, width, height })
    }
}

proof fn lemma_find_from_first(s: Seq<char>, pat: Seq<char>, i: int, k: int)
    requires
        0 <= i <= k,
        k + pat.len() <= s.len(),
        pat.len() > 0,
        s.subrange(k, k + pat.len()) == pat,
        forall|j: int| i <= j < k ==> s[j] != pat[0],
    ensures
        find_from(s, pat, i) == k,
    decreases k - i,
{
    if i < k {
        assert(s.subrange(i, i + pat.len())[0] == s[i]);
        lemma_find_from_first(s, pat, i + 1, k);
    }
}

/// No MIME type of a format holds a `;`.
proof fn lemma_mime_has_no_semicolon(f: ImageFormat)
    ensures
        forall|m: int| 0 <= m < format_mime(f).len() ==> format_mime(f)[m] != ';',
{
    match f {
        ImageFormat::Avif => reveal_strlit("image/avif"),
        ImageFormat::Jpeg => reveal_strlit("image/jpeg"),
        ImageFormat::Png => reveal_strlit("image/png"),
        ImageFormat::Gif => reveal_strlit("image/gif"),
        ImageFormat::WebP => reveal_strlit("image/webp"),
        ImageFormat::Tiff => reveal_strlit("image/tiff"),
        ImageFormat::Tga => reveal_strlit("image/x-targa"),
        ImageFormat::Dds => reveal_strlit("image/vnd-ms.dds"),
        ImageFormat::Bmp => reveal_strlit("image/bmp"),
        ImageFormat::Ico => reveal_strlit("image/x-icon"),
        ImageFormat::Hdr => reveal_strlit("image/vnd.radiance"),
        ImageFormat::OpenExr => reveal_strlit("image/x-exr"),
        ImageFormat::Pnm => reveal_strlit("image/x-portable-anymap"),
        ImageFormat::Qoi => reveal_strlit("image/x-qoi"),
        ImageFormat::Farbfeld => reveal_strlit("application/octet-stream"),
        ImageFormat::Pcx => reveal_strlit("image/vnd.zbrush.pcx"),
    }
}

/// An image written as a data URI reads back in the same format, with the same base64 text:
/// the URI splits into the format's MIME type and the text, and the MIME type names the format
/// again. This holds for every format but farbfeld and PCX, whose MIME types
/// (`application/octet-stream`, `image/vnd.zbrush.pcx`) are not recognised when reading.
/// With the base64 engine decoding what it encoded, reading a URI written by
/// [ImageData::to_b64_data_uri] gives back the image's bytes and format.
pub proof fn law_data_uri_round_trip(f: ImageFormat, text: Seq<char>)
    requires
        f != ImageFormat::Farbfeld,
        f != ImageFormat::Pcx,
    ensures
        data_uri_parts(data_uri(f, text)) == Some((format_mime(f), text)),
        format_of_mime(format_mime(f)) == Some(f),
{
    reveal_strlit("data:");
    reveal_strlit(";base64,");
    let uri = data_uri(f, text);
    let mime = format_mime(f);
    let n: int = mime.len() as int;
    let sep = ";base64,"@;
    lemma_mime_has_no_semicolon(f);
    assert(uri.subrange(0, 5) =~= "data:"@);
    assert forall|j: int| 5 <= j < 5 + n implies uri[j] != sep[0] by {
        assert(uri[j] == mime[j - 5]);
    }
    assert(uri.subrange(5 + n, 5 + n + 8) =~= sep);
    lemma_find_from_first(uri, sep, 5, 5 + n);
    assert(uri.subrange(5, 5 + n) =~= mime);
    assert(uri.subrange(5 + n + 8, uri.len() as int) =~= text);
    lemma_mime_names_format(f);
}

/// An image written by [ImageData::to_b64_data_uri] reads back by
/// [ImageData::from_b64_data_uri] as the same image: the same bytes, format, width and height.
/// The URI that writing gives, with the base64 text decoding back to the bytes (as writing
/// ensures), and an image whose dimensions are those its bytes decode to in its format, are
/// what the law takes; farbfeld and PCX are left out, as in [law_data_uri_round_trip].
pub proof fn law_image_data_uri_round_trip(d: ImageData, uri: Seq<char>)
    requires
        d.format != ImageFormat::Farbfeld,
        d.format != ImageFormat::Pcx,
        uri == data_uri(d.format, base64_encoded(d.bytes@)),
        base64_decoded(base64_encoded(d.bytes@)) == Some(d.bytes@),
        decoded_dimensions_as(d.bytes@, format_mime(d.format)) == Some((d.width, d.height)),
    ensures
        data_uri_parts(uri) == Some((format_mime(d.format), base64_encoded(d.bytes@))),
        format_of_mime(format_mime(d.format)) == Some(d.format),
        base64_decoded((data_uri_parts(uri)->0).1) == Some(d.bytes@),
        decoded_dimensions_as(base64_decoded((data_uri_parts(uri)->0).1)->0, (data_uri_parts(uri)->0).0)
            == Some((d.width, d.height)),
{
    law_data_uri_round_trip(d.format, base64_encoded(d.bytes@));
}

/// The MIME type of a format names it again, but for farbfeld and PCX.
proof fn lemma_mime_names_format(f: ImageFormat)
    requires
        f != ImageFormat::Farbfeld,
        f != ImageFormat::Pcx,
    ensures
        format_of_mime(format_mime(f)) == Some(f),
{
    match f {
        ImageFormat::Avif => {
            reveal_strlit("image/avif");
        },
        ImageFormat::Jpeg => {
            reveal_strlit("image/jpeg");
            reveal_strlit("image/avif");
            assert("image/jpeg"@[6] != "image/avif"@[6]);
        },
        ImageFormat::Png => {
            reveal_strlit("image/png");
            reveal_strlit("image/avif");
            assert("image/png"@.len() != "image/avif"@.len());
            reveal_strlit("image/jpeg");
            assert("image/png"@.len() != "image/jpeg"@.len());
        },
        ImageFormat::Gif => {
            reveal_strlit("image/gif");
            reveal_strlit("image/avif");
            assert("image/gif"@.len() != "image/avif"@.len());
            reveal_strlit("image/jpeg");
            assert("image/gif"@.len() != "image/jpeg"@.len());
            reveal_strlit("image/png");
            assert("image/gif"@[6] != "image/png"@[6]);
        },
        ImageFormat::WebP => {
            reveal_strlit("image/webp");
            reveal_strlit("image/avif");
            assert("image/webp"@[6] != "image/avif"@[6]);
            reveal_strlit("image/jpeg");
            assert("image/webp"@[6] != "image/jpeg"@[6]);
            reveal_strlit("image/png");
            assert("image/webp"@.len() != "image/png"@.len());
            reveal_strlit("image/gif");
            assert("image/webp"@.len() != "image/gif"@.len());
        },
        ImageFormat::Tiff => {
            reveal_strlit("image/tiff");
            reveal_strlit("image/avif");
            assert("image/tiff"@[6] != "image/avif"@[6]);
            reveal_strlit("image/jpeg");
            assert("image/tiff"@[6] != "image/jpeg"@[6]);
            reveal_strlit("image/png");
            assert("image/tiff"@.len() != "image/png"@.len());
            reveal_strlit("image/gif");
            assert("image/tiff"@.len() != "image/gif"@.len());
            reveal_strlit("image/webp");
            assert("image/tiff"@[6] != "image/webp"@[6]);
        },
        ImageFormat::Tga => {
            reveal_strlit("image/x-targa");
            reveal_strlit("image/avif");
            assert("image/x-targa"@.len() != "image/avif"@.len());
            reveal_strlit("image/jpeg");
            assert("image/x-targa"@.len() != "image/jpeg"@.len());
            reveal_strlit("image/png");
            assert("image/x-targa"@.len() != "image/png"@.len());
            reveal_strlit("image/gif");
            assert("image/x-targa"@.len() != "image/gif"@.len());
            reveal_strlit("image/webp");
            assert("image/x-targa"@.len() != "image/webp"@.len());
            reveal_strlit("image/tiff");
            assert("image/x-targa"@.len() != "image/tiff"@.len());
        },
        ImageFormat::Dds => {
            reveal_strlit("image/vnd-ms.dds");
            reveal_strlit("image/avif");
            assert("image/vnd-ms.dds"@.len() != "image/avif"@.len());
            reveal_strlit("image/jpeg");
            assert("image/vnd-ms.dds"@.len() != "image/jpeg"@.len());
            reveal_strlit("image/png");
            assert("image/vnd-ms.dds"@.len() != "image/png"@.len());
            reveal_strlit("image/gif");
            assert("image/vnd-ms.dds"@.len() != "image/gif"@.len());
            reveal_strlit("image/webp");
            assert("image/vnd-ms.dds"@.len() != "image/webp"@.len());
            reveal_strlit("image/tiff");
            assert("image/vnd-ms.dds"@.len() != "image/tiff"@.len());
            reveal_strlit("image/x-targa");
            assert("image/vnd-ms.dds"@.len() != "image/x-targa"@.len());
            reveal_strlit("image/x-tga");
            assert("image/vnd-ms.dds"@.len() != "image/x-tga"@.len());
        },
        ImageFormat::Bmp => {
            reveal_strlit("image/bmp");
            reveal_strlit("image/avif");
            assert("image/bmp"@.len() != "image/avif"@.len());
            reveal_strlit("image/jpeg");
            assert("image/bmp"@.len() != "image/jpeg"@.len());
            reveal_strlit("image/png");
            assert("image/bmp"@[6] != "image/png"@[6]);
            reveal_strlit("image/gif");
            assert("image/bmp"@[6] != "image/gif"@[6]);
            reveal_strlit("image/webp");
            assert("image/bmp"@.len() != "image/webp"@.len());
            reveal_strlit("image/tiff");
            assert("image/bmp"@.len() != "image/tiff"@.len());
            reveal_strlit("image/x-targa");
            assert("image/bmp"@.len() != "image/x-targa"@.len());
            reveal_strlit("image/x-tga");
            assert("image/bmp"@.len() != "image/x-tga"@.len());
            reveal_strlit("image/vnd-ms.dds");
            assert("image/bmp"@.len() != "image/vnd-ms.dds"@.len());
        },
        ImageFormat::Ico => {
            reveal_strlit("image/x-icon");
            reveal_strlit("image/avif");
            assert("image/x-icon"@.len() != "image/avif"@.len());
            reveal_strlit("image/jpeg");
            assert("image/x-icon"@.len() != "image/jpeg"@.len());
            reveal_strlit("image/png");
            assert("image/x-icon"@.len() != "image/png"@.len());
            reveal_strlit("image/gif");
            assert("image/x-icon"@.len() != "image/gif"@.len());
            reveal_strlit("image/webp");
            assert("image/x-icon"@.len() != "image/webp"@.len());
            reveal_strlit("image/tiff");
            assert("image/x-icon"@.len() != "image/tiff"@.len());
            reveal_strlit("image/x-targa");
            assert("image/x-icon"@.len() != "image/x-targa"@.len());
            reveal_strlit("image/x-tga");
            assert("image/x-icon"@.len() != "image/x-tga"@.len());
            reveal_strlit("image/vnd-ms.dds");
            assert("image/x-icon"@.len() != "image/vnd-ms.dds"@.len());
            reveal_strlit("image/bmp");
            assert("image/x-icon"@.len() != "image/bmp"@.len());
        },
        ImageFormat::Hdr => {
            reveal_strlit("image/vnd.radiance");
            reveal_strlit("image/avif");
            assert("image/vnd.radiance"@.len() != "image/avif"@.len());
            reveal_strlit("image/jpeg");
            assert("image/vnd.radiance"@.len() != "image/jpeg"@.len());
            reveal_strlit("image/png");
            assert("image/vnd.radiance"@.len() != "image/png"@.len());
            reveal_strlit("image/gif");
            assert("image/vnd.radiance"@.len() != "image/gif"@.len());
            reveal_strlit("image/webp");
            assert("image/vnd.radiance"@.len() != "image/webp"@.len());
            reveal_strlit("image/tiff");
            assert("image/vnd.radiance"@.len() != "image/tiff"@.len());
            reveal_strlit("image/x-targa");
            assert("image/vnd.radiance"@.len() != "image/x-targa"@.len());
            reveal_strlit("image/x-tga");
            assert("image/vnd.radiance"@.len() != "image/x-tga"@.len());
            reveal_strlit("image/vnd-ms.dds");
            assert("image/vnd.radiance"@.len() != "image/vnd-ms.dds"@.len());
            reveal_strlit("image/bmp");
            assert("image/vnd.radiance"@.len() != "image/bmp"@.len());
            reveal_strlit("image/x-icon");
            assert("image/vnd.radiance"@.len() != "image/x-icon"@.len());
            reveal_strlit("image/vnd.microsoft.icon");
            assert("image/vnd.radiance"@.len() != "image/vnd.microsoft.icon"@.len());
        },
        ImageFormat::OpenExr => {
            reveal_strlit("image/x-exr");
            reveal_strlit("image/avif");
            assert("image/x-exr"@.len() != "image/avif"@.len());
            reveal_strlit("image/jpeg");
            assert("image/x-exr"@.len() != "image/jpeg"@.len());
            reveal_strlit("image/png");
            assert("image/x-exr"@.len() != "image/png"@.len());
            reveal_strlit("image/gif");
            assert("image/x-exr"@.len() != "image/gif"@.len());
            reveal_strlit("image/webp");
            assert("image/x-exr"@.len() != "image/webp"@.len());
            reveal_strlit("image/tiff");
            assert("image/x-exr"@.len() != "image/tiff"@.len());
            reveal_strlit("image/x-targa");
            assert("image/x-exr"@.len() != "image/x-targa"@.len());
            reveal_strlit("image/x-tga");
            assert("image/x-exr"@[8] != "image/x-tga"@[8]);
            reveal_strlit("image/vnd-ms.dds");
            assert("image/x-exr"@.len() != "image/vnd-ms.dds"@.len());
            reveal_strlit("image/bmp");
            assert("image/x-exr"@.len() != "image/bmp"@.len());
            reveal_strlit("image/x-icon");
            assert("image/x-exr"@.len() != "image/x-icon"@.len());
            reveal_strlit("image/vnd.microsoft.icon");
            assert("image/x-exr"@.len() != "image/vnd.microsoft.icon"@.len());
            reveal_strlit("image/vnd.radiance");
            assert("image/x-exr"@.len() != "image/vnd.radiance"@.len());
        },
        ImageFormat::Pnm => {
            reveal_strlit("image/x-portable-anymap");
            reveal_strlit("image/avif");
            assert("image/x-portable-anymap"@.len() != "image/avif"@.len());
            reveal_strlit("image/jpeg");
            assert("image/x-portable-anymap"@.len() != "image/jpeg"@.len());
            reveal_strlit("image/png");
            assert("image/x-portable-anymap"@.len() != "image/png"@.len());
            reveal_strlit("image/gif");
            assert("image/x-portable-anymap"@.len() != "image/gif"@.len());
            reveal_strlit("image/webp");
            assert("image/x-portable-anymap"@.len() != "image/webp"@.len());
            reveal_strlit("image/tiff");
            assert("image/x-portable-anymap"@.len() != "image/tiff"@.len());
            reveal_strlit("image/x-targa");
            assert("image/x-portable-anymap"@.len() != "image/x-targa"@.len());
            reveal_strlit("image/x-tga");
            assert("image/x-portable-anymap"@.len() != "image/x-tga"@.len());
            reveal_strlit("image/vnd-ms.dds");
            assert("image/x-portable-anymap"@.len() != "image/vnd-ms.dds"@.len());
            reveal_strlit("image/bmp");
            assert("image/x-portable-anymap"@.len() != "image/bmp"@.len());
            reveal_strlit("image/x-icon");
            assert("image/x-portable-anymap"@.len() != "image/x-icon"@.len());
            reveal_strlit("image/vnd.microsoft.icon");
            assert("image/x-portable-anymap"@.len() != "image/vnd.microsoft.icon"@.len());
            reveal_strlit("image/vnd.radiance");
            assert("image/x-portable-anymap"@.len() != "image/vnd.radiance"@.len());
            reveal_strlit("image/x-exr");
            assert("image/x-portable-anymap"@.len() != "image/x-exr"@.len());
        },
        ImageFormat::Qoi => {
            reveal_strlit("image/x-qoi");
            reveal_strlit("image/avif");
            assert("image/x-qoi"@.len() != "image/avif"@.len());
            reveal_strlit("image/jpeg");
            assert("image/x-qoi"@.len() != "image/jpeg"@.len());
            reveal_strlit("image/png");
            assert("image/x-qoi"@.len() != "image/png"@.len());
            reveal_strlit("image/gif");
            assert("image/x-qoi"@.len() != "image/gif"@.len());
            reveal_strlit("image/webp");
            assert("image/x-qoi"@.len() != "image/webp"@.len());
            reveal_strlit("image/tiff");
            assert("image/x-qoi"@.len() != "image/tiff"@.len());
            reveal_strlit("image/x-targa");
            assert("image/x-qoi"@.len() != "image/x-targa"@.len());
            reveal_strlit("image/x-tga");
            assert("image/x-qoi"@[8] != "image/x-tga"@[8]);
            reveal_strlit("image/vnd-ms.dds");
            assert("image/x-qoi"@.len() != "image/vnd-ms.dds"@.len());
            reveal_strlit("image/bmp");
            assert("image/x-qoi"@.len() != "image/bmp"@.len());
            reveal_strlit("image/x-icon");
            assert("image/x-qoi"@.len() != "image/x-icon"@.len());
            reveal_strlit("image/vnd.microsoft.icon");
            assert("image/x-qoi"@.len() != "image/vnd.microsoft.icon"@.len());
            reveal_strlit("image/vnd.radiance");
            assert("image/x-qoi"@.len() != "image/vnd.radiance"@.len());
            reveal_strlit("image/x-exr");
            assert("image/x-qoi"@[8] != "image/x-exr"@[8]);
            reveal_strlit("image/x-portable-bitmap");
            assert("image/x-qoi"@.len() != "image/x-portable-bitmap"@.len());
            reveal_strlit("image/x-portable-graymap");
            assert("image/x-qoi"@.len() != "image/x-portable-graymap"@.len());
            reveal_strlit("image/x-portable-pixmap");
            assert("image/x-qoi"@.len() != "image/x-portable-pixmap"@.len());
            reveal_strlit("image/x-portable-anymap");
            assert("image/x-qoi"@.len() != "image/x-portable-anymap"@.len());
        },
        _ => {},
    }
}


/// Every image format is found again from its first extension: the name an image is stored
/// under ([Image::path]) names its format.
pub proof fn law_format_extension_round_trip(f: ImageFormat)
    ensures
        format_of_extension(format_extension(f)) == Some(f),
{
    match f {
        ImageFormat::Png => {
            reveal_strlit("png");
        },
        ImageFormat::Jpeg => {
            reveal_strlit("jpg");
            reveal_strlit("png");
            assert("jpg"@[0] != "png"@[0]);
        },
        ImageFormat::Gif => {
            reveal_strlit("gif");
            reveal_strlit("png");
            assert("gif"@[0] != "png"@[0]);
            reveal_strlit("jpg");
            assert("gif"@[0] != "jpg"@[0]);
        },
        ImageFormat::WebP => {
            reveal_strlit("webp");
            reveal_strlit("png");
            assert("webp"@.len() != "png"@.len());
            reveal_strlit("jpg");
            assert("webp"@.len() != "jpg"@.len());
            reveal_strlit("gif");
            assert("webp"@.len() != "gif"@.len());
        },
        ImageFormat::Pnm => {
            reveal_strlit("pbm");
            reveal_strlit("png");
            assert("pbm"@[1] != "png"@[1]);
            reveal_strlit("jpg");
            assert("pbm"@[0] != "jpg"@[0]);
            reveal_strlit("gif");
            assert("pbm"@[0] != "gif"@[0]);
            reveal_strlit("webp");
            assert("pbm"@.len() != "webp"@.len());
        },
        ImageFormat::Tiff => {
            reveal_strlit("tiff");
            reveal_strlit("png");
            assert("tiff"@.len() != "png"@.len());
            reveal_strlit("jpg");
            assert("tiff"@.len() != "jpg"@.len());
            reveal_strlit("gif");
            assert("tiff"@.len() != "gif"@.len());
            reveal_strlit("webp");
            assert("tiff"@[0] != "webp"@[0]);
            reveal_strlit("pbm");
            assert("tiff"@.len() != "pbm"@.len());
        },
        ImageFormat::Tga => {
            reveal_strlit("tga");
            reveal_strlit("png");
            assert("tga"@[0] != "png"@[0]);
            reveal_strlit("jpg");
            assert("tga"@[0] != "jpg"@[0]);
            reveal_strlit("gif");
            assert("tga"@[0] != "gif"@[0]);
            reveal_strlit("webp");
            assert("tga"@.len() != "webp"@.len());
            reveal_strlit("pbm");
            assert("tga"@[0] != "pbm"@[0]);
            reveal_strlit("tiff");
            assert("tga"@.len() != "tiff"@.len());
        },
        ImageFormat::Dds => {
            reveal_strlit("dds");
            reveal_strlit("png");
            assert("dds"@[0] != "png"@[0]);
            reveal_strlit("jpg");
            assert("dds"@[0] != "jpg"@[0]);
            reveal_strlit("gif");
            assert("dds"@[0] != "gif"@[0]);
            reveal_strlit("webp");
            assert("dds"@.len() != "webp"@.len());
            reveal_strlit("pbm");
            assert("dds"@[0] != "pbm"@[0]);
            reveal_strlit("tiff");
            assert("dds"@.len() != "tiff"@.len());
            reveal_strlit("tga");
            assert("dds"@[0] != "tga"@[0]);
        },
        ImageFormat::Bmp => {
            reveal_strlit("bmp");
            reveal_strlit("png");
            assert("bmp"@[0] != "png"@[0]);
            reveal_strlit("jpg");
            assert("bmp"@[0] != "jpg"@[0]);
            reveal_strlit("gif");
            assert("bmp"@[0] != "gif"@[0]);
            reveal_strlit("webp");
            assert("bmp"@.len() != "webp"@.len());
            reveal_strlit("pbm");
            assert("bmp"@[0] != "pbm"@[0]);
            reveal_strlit("tiff");
            assert("bmp"@.len() != "tiff"@.len());
            reveal_strlit("tga");
            assert("bmp"@[0] != "tga"@[0]);
            reveal_strlit("dds");
            assert("bmp"@[0] != "dds"@[0]);
        },
        ImageFormat::Ico => {
            reveal_strlit("ico");
            reveal_strlit("png");
            assert("ico"@[0] != "png"@[0]);
            reveal_strlit("jpg");
            assert("ico"@[0] != "jpg"@[0]);
            reveal_strlit("gif");
            assert("ico"@[0] != "gif"@[0]);
            reveal_strlit("webp");
            assert("ico"@.len() != "webp"@.len());
            reveal_strlit("pbm");
            assert("ico"@[0] != "pbm"@[0]);
            reveal_strlit("tiff");
            assert("ico"@.len() != "tiff"@.len());
            reveal_strlit("tga");
            assert("ico"@[0] != "tga"@[0]);
            reveal_strlit("dds");
            assert("ico"@[0] != "dds"@[0]);
            reveal_strlit("bmp");
            assert("ico"@[0] != "bmp"@[0]);
        },
        ImageFormat::Hdr => {
            reveal_strlit("hdr");
            reveal_strlit("png");
            assert("hdr"@[0] != "png"@[0]);
            reveal_strlit("jpg");
            assert("hdr"@[0] != "jpg"@[0]);
            reveal_strlit("gif");
            assert("hdr"@[0] != "gif"@[0]);
            reveal_strlit("webp");
            assert("hdr"@.len() != "webp"@.len());
            reveal_strlit("pbm");
            assert("hdr"@[0] != "pbm"@[0]);
            reveal_strlit("tiff");
            assert("hdr"@.len() != "tiff"@.len());
            reveal_strlit("tga");
            assert("hdr"@[0] != "tga"@[0]);
            reveal_strlit("dds");
            assert("hdr"@[0] != "dds"@[0]);
            reveal_strlit("bmp");
            assert("hdr"@[0] != "bmp"@[0]);
            reveal_strlit("ico");
            assert("hdr"@[0] != "ico"@[0]);
        },
        ImageFormat::OpenExr => {
            reveal_strlit("exr");
            reveal_strlit("png");
            assert("exr"@[0] != "png"@[0]);
            reveal_strlit("jpg");
            assert("exr"@[0] != "jpg"@[0]);
            reveal_strlit("gif");
            assert("exr"@[0] != "gif"@[0]);
            reveal_strlit("webp");
            assert("exr"@.len() != "webp"@.len());
            reveal_strlit("pbm");
            assert("exr"@[0] != "pbm"@[0]);
            reveal_strlit("tiff");
            assert("exr"@.len() != "tiff"@.len());
            reveal_strlit("tga");
            assert("exr"@[0] != "tga"@[0]);
            reveal_strlit("dds");
            assert("exr"@[0] != "dds"@[0]);
            reveal_strlit("bmp");
            assert("exr"@[0] != "bmp"@[0]);
            reveal_strlit("ico");
            assert("exr"@[0] != "ico"@[0]);
            reveal_strlit("hdr");
            assert("exr"@[0] != "hdr"@[0]);
        },
        ImageFormat::Farbfeld => {
            reveal_strlit("ff");
            reveal_strlit("png");
            assert("ff"@.len() != "png"@.len());
            reveal_strlit("jpg");
            assert("ff"@.len() != "jpg"@.len());
            reveal_strlit("gif");
            assert("ff"@.len() != "gif"@.len());
            reveal_strlit("webp");
            assert("ff"@.len() != "webp"@.len());
            reveal_strlit("pbm");
            assert("ff"@.len() != "pbm"@.len());
            reveal_strlit("tiff");
            assert("ff"@.len() != "tiff"@.len());
            reveal_strlit("tga");
            assert("ff"@.len() != "tga"@.len());
            reveal_strlit("dds");
            assert("ff"@.len() != "dds"@.len());
            reveal_strlit("bmp");
            assert("ff"@.len() != "bmp"@.len());
            reveal_strlit("ico");
            assert("ff"@.len() != "ico"@.len());
            reveal_strlit("hdr");
            assert("ff"@.len() != "hdr"@.len());
            reveal_strlit("exr");
            assert("ff"@.len() != "exr"@.len());
        },
        ImageFormat::Avif => {
            reveal_strlit("avif");
            reveal_strlit("png");
            assert("avif"@.len() != "png"@.len());
            reveal_strlit("jpg");
            assert("avif"@.len() != "jpg"@.len());
            reveal_strlit("gif");
            assert("avif"@.len() != "gif"@.len());
            reveal_strlit("webp");
            assert("avif"@[0] != "webp"@[0]);
            reveal_strlit("pbm");
            assert("avif"@.len() != "pbm"@.len());
            reveal_strlit("tiff");
            assert("avif"@[0] != "tiff"@[0]);
            reveal_strlit("tga");
            assert("avif"@.len() != "tga"@.len());
            reveal_strlit("dds");
            assert("avif"@.len() != "dds"@.len());
            reveal_strlit("bmp");
            assert("avif"@.len() != "bmp"@.len());
            reveal_strlit("ico");
            assert("avif"@.len() != "ico"@.len());
            reveal_strlit("hdr");
            assert("avif"@.len() != "hdr"@.len());
            reveal_strlit("exr");
            assert("avif"@.len() != "exr"@.len());
            reveal_strlit("ff");
            assert("avif"@.len() != "ff"@.len());
        },
        ImageFormat::Qoi => {
            reveal_strlit("qoi");
            reveal_strlit("png");
            assert("qoi"@[0] != "png"@[0]);
            reveal_strlit("jpg");
            assert("qoi"@[0] != "jpg"@[0]);
            reveal_strlit("gif");
            assert("qoi"@[0] != "gif"@[0]);
            reveal_strlit("webp");
            assert("qoi"@.len() != "webp"@.len());
            reveal_strlit("pbm");
            assert("qoi"@[0] != "pbm"@[0]);
            reveal_strlit("tiff");
            assert("qoi"@.len() != "tiff"@.len());
            reveal_strlit("tga");
            assert("qoi"@[0] != "tga"@[0]);
            reveal_strlit("dds");
            assert("qoi"@[0] != "dds"@[0]);
            reveal_strlit("bmp");
            assert("qoi"@[0] != "bmp"@[0]);
            reveal_strlit("ico");
            assert("qoi"@[0] != "ico"@[0]);
            reveal_strlit("hdr");
            assert("qoi"@[0] != "hdr"@[0]);
            reveal_strlit("exr");
            assert("qoi"@[0] != "exr"@[0]);
            reveal_strlit("ff");
            assert("qoi"@.len() != "ff"@.len());
            reveal_strlit("avif");
            assert("qoi"@.len() != "avif"@.len());
        },
        ImageFormat::Pcx => {
            reveal_strlit("pcx");
            reveal_strlit("png");
            assert("pcx"@[1] != "png"@[1]);
            reveal_strlit("jpg");
            assert("pcx"@[0] != "jpg"@[0]);
            reveal_strlit("gif");
            assert("pcx"@[0] != "gif"@[0]);
            reveal_strlit("webp");
            assert("pcx"@.len() != "webp"@.len());
            reveal_strlit("pbm");
            assert("pcx"@[1] != "pbm"@[1]);
            reveal_strlit("tiff");
            assert("pcx"@.len() != "tiff"@.len());
            reveal_strlit("tga");
            assert("pcx"@[0] != "tga"@[0]);
            reveal_strlit("dds");
            assert("pcx"@[0] != "dds"@[0]);
            reveal_strlit("bmp");
            assert("pcx"@[0] != "bmp"@[0]);
            reveal_strlit("ico");
            assert("pcx"@[0] != "ico"@[0]);
            reveal_strlit("hdr");
            assert("pcx"@[0] != "hdr"@[0]);
            reveal_strlit("exr");
            assert("pcx"@[0] != "exr"@[0]);
            reveal_strlit("ff");
            assert("pcx"@.len() != "ff"@.len());
            reveal_strlit("avif");
            assert("pcx"@.len() != "avif"@.len());
            reveal_strlit("qoi");
            assert("pcx"@[0] != "qoi"@[0]);
        },
    }
}

/// The first extension of the format that `image::ImageFormat::from_path` finds for `path`
/// (from its extension), if any.
pub uninterp spec fn path_format_extension(path: Seq<char>) -> Option<Seq<char>>;

/// `image::ImageFormat::from_path`: the first extension of the format, named
/// [path_format_extension]; otherwise the error's message.
#[verifier::external_body]
fn format_extension_from_path(path: &str) -> (res: Result<&'static str, String>)
    ensures
        match res {
            Ok(e) => path_format_extension(path@) == Some(e@),
            Err(_) => path_format_extension(path@) is None,
        },
{
    match image::ImageFormat::from_path(path) {
        Ok(format) => Ok(format.extensions_str()[0]),
        Err(e) => Err(e.to_string()),
    }
}

/// The format of an image kept in image storage, from its metadata: the image must be kept by
/// this storage (else it does not exist here), and its path must name a format.
pub fn stored_image_format(src: &str, storage_id: &str, id: &str, path: &str) -> (res: Result<
    ImageFormat,
    ChonkitError,
>)
    ensures
        src@ != storage_id@ ==> (res matches Err(ChonkitError::DoesNotExist(m)) && m@
            == "Image with ID "@ + id@),
        src@ == storage_id@ ==> match path_format_extension(path@) {
            None => res matches Err(ChonkitError::InvalidFile(_)),
            Some(e) => match format_of_extension(e) {
                Some(f) => res == Ok::<ImageFormat, ChonkitError>(f),
                None => res matches Err(ChonkitError::InvalidFile(_)),
            },
        },
{
    if !str_eq(src, storage_id) {
        let mut m = "Image with ID ".to_owned();
        push_str(&mut m, id);
        return Err(ChonkitError::DoesNotExist(m));
    }
    match format_extension_from_path(path) {
        Ok(ext) => match ImageFormat::from_first_extension(ext) {
            Some(f) => Ok(f),
            None => Err(ChonkitError::InvalidFile("Failed to parse image format: unknown format".to_owned())),
        },
        Err(e) => {
            let mut m = "Failed to parse image format: ".to_owned();
            push_str(&mut m, e.as_str());
            Err(ChonkitError::InvalidFile(m))
        },
    }
}

/// The digest that identifies an image, in hexadecimal: that of its bytes followed by its
/// description, as [Image::hash] computes it.
pub open spec fn image_digest(img: Image) -> Seq<char> {
    hex_lower(
        sha256_digest(
            image_hash_input(
                img.image.bytes@,
                match img.description {
                    Some(d) => Some(d@),
                    None => None,
                },
            ),
        ),
    )
}

/// Two images are the same image when their hashes are equal.
impl PartialEq for Image {
    fn eq(&self, other: &Self) -> (res: bool) {
        let a = self.hash();
        let b = other.hash();
        str_eq(a.0.as_str(), b.0.as_str())
    }
}

impl vstd::std_specs::cmp::PartialEqSpecImpl for Image {
    open spec fn obeys_eq_spec() -> bool {
        true
    }

    open spec fn eq_spec(&self, other: &Self) -> bool {
        image_digest(*self) == image_digest(*other)
    }
}

} // verus!
