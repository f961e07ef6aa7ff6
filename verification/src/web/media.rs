//! Files that pages load: films and sounds in parts, pictures of personas, and
//! the page itself.

use crate::digest::{hex_bytes, hex_of, sha256, sha256_of};
use crate::text::{chars_of, decimal, decimal_text, same, slice, trim, trimmed};
use crate::web::error::{checked, ApiError, ApiErrorModel, StatusCode};
use crate::words::{
    ascii_lower, cut, is_char, lower_fn, pieces, replace, replaced, split_at_char, split_once,
    starts_with,
};
use vstd::prelude::*;

verus! {

/// The media type of the films and sounds that are played, by the extension of
/// their files.
pub open spec fn mime_of(extension: Seq<char>) -> Option<Seq<char>> {
    let ext = extension.map_values(lower_fn());
    if ext == "mp4"@ || ext == "m4v"@ {
        Some("video/mp4"@)
    } else if ext == "webm"@ {
        Some("video/webm"@)
    } else if ext == "mov"@ {
        Some("video/quicktime"@)
    } else if ext == "mkv"@ {
        Some("video/x-matroska"@)
    } else if ext == "ogv"@ || ext == "ogg"@ {
        Some("video/ogg"@)
    } else if ext == "mp3"@ {
        Some("audio/mpeg"@)
    } else if ext == "flac"@ {
        Some("audio/flac"@)
    } else if ext == "wav"@ {
        Some("audio/wav"@)
    } else if ext == "m4a"@ {
        Some("audio/mp4"@)
    } else if ext == "opus"@ {
        Some("audio/ogg"@)
    } else {
        None
    }
}

/// The media type of a film or a sound, by the extension of its file; none where
/// it is not played.
pub fn media_mime(extension: Option<&str>) -> (mime: Option<&'static str>)
    ensures
        mime.deep_view() == match extension {
            Some(extension) => mime_of(extension@),
            None => None,
        },
{
    let ext = match extension {
        Some(extension) => ascii_lower(extension),
        None => return None,
    };
    let ext = ext.as_str();
    if same(ext, "mp4") || same(ext, "m4v") {
        Some("video/mp4")
    } else if same(ext, "webm") {
        Some("video/webm")
    } else if same(ext, "mov") {
        Some("video/quicktime")
    } else if same(ext, "mkv") {
        Some("video/x-matroska")
    } else if same(ext, "ogv") || same(ext, "ogg") {
        Some("video/ogg")
    } else if same(ext, "mp3") {
        Some("audio/mpeg")
    } else if same(ext, "flac") {
        Some("audio/flac")
    } else if same(ext, "wav") {
        Some("audio/wav")
    } else if same(ext, "m4a") {
        Some("audio/mp4")
    } else if same(ext, "opus") {
        Some("audio/ogg")
    } else {
        None
    }
}

pub open spec fn is_digit(c: char) -> bool {
    '0' <= c <= '9'
}

/// The number that digits stand for.
pub open spec fn value_of(digits: Seq<char>) -> nat
    decreases digits.len(),
{
    if digits.len() == 0 {
        0
    } else {
        value_of(digits.drop_last()) * 10 + (digits.last() as nat - '0' as nat) as nat
    }
}

/// The digits of a number, behind a plus sign that it may have.
pub open spec fn digits_of(s: Seq<char>) -> Seq<char> {
    if s.len() > 0 && s[0] == '+' {
        s.skip(1)
    } else {
        s
    }
}

/// The number that a text says, if it says one that fits.
pub open spec fn number_of(s: Seq<char>) -> Option<u64> {
    let digits = digits_of(s);
    if digits.len() == 0 || (
        exists|i: int| 0 <= i < digits.len() && !is_digit(#[trigger] digits[i])
    )
        || value_of(digits) > u64::MAX {
        None
    } else {
        Some(value_of(digits) as u64)
    }
}

proof fn lemma_value_grows(digits: Seq<char>, n: int)
    requires
        0 <= n <= digits.len(),
    ensures
        value_of(digits.take(n)) <= value_of(digits),
    decreases digits.len(),
{
    if n < digits.len() {
        lemma_value_grows(digits.drop_last(), n);
        assert(digits.drop_last().take(n) =~= digits.take(n));
    } else {
        assert(digits.take(n) =~= digits);
    }
}

/// The number that a text says, if it says one that fits.
pub fn parse_number(text: &str) -> (number: Option<u64>)
    ensures
        number == number_of(text@),
{
    let all = chars_of(text);
    let chars = if all.len() > 0 && all[0] == '+' {
        slice(&all, 1, all.len())
    } else {
        slice(&all, 0, all.len())
    };
    let ghost digits = digits_of(text@);
    assert(chars@ =~= digits);
    if chars.len() == 0 {
        return None;
    }
    let mut value: u64 = 0;
    let mut i: usize = 0;
    assert(digits.take(0) =~= Seq::<char>::empty());
    while i < chars.len()
        invariant
            i <= chars.len(),
            chars@ == digits,
            digits == digits_of(text@),
            digits.len() > 0,
            value == value_of(digits.take(i as int)),
            forall|j: int| 0 <= j < i ==> is_digit(#[trigger] digits[j]),
        decreases chars.len() - i,
    {
        let c = chars[i];
        if !('0' <= c && c <= '9') {
            assert(!is_digit(digits[i as int]));
            return None;
        }
        let digit: u64 = ((c as u8) - 48) as u64;
        proof {
            assert(digits.take(i + 1).drop_last() =~= digits.take(i as int));
            assert(digits.take(i + 1).last() == c);
            lemma_value_grows(digits, i + 1);
        }
        if value > (u64::MAX - digit) / 10 {
            assert(value * 10 + digit > u64::MAX) by (nonlinear_arith)
                requires
                    value > (u64::MAX - digit) / 10,
                    digit <= 9,
            ;
            return None;
        }
        value = value * 10 + digit;
        i += 1;
    }
    assert(digits.take(i as int) =~= digits);
    Some(value)
}

pub open spec fn after_prefix(s: Seq<char>, prefix: Seq<char>) -> Option<Seq<char>> {
    if prefix.is_prefix_of(s) {
        Some(s.skip(prefix.len() as int))
    } else {
        None
    }
}

pub open spec fn lesser(a: u64, b: u64) -> u64 {
    if a < b {
        a
    } else {
        b
    }
}

pub open spec fn one_less(n: u64) -> u64 {
    if n == 0 {
        0
    } else {
        (n - 1) as u64
    }
}

/// The first and the last byte that the two ends of a range say, of a file of
/// `total` bytes. No first one means so many bytes at the end; no last one, all
/// from the first on.
pub open spec fn range_of(start: Seq<char>, end: Seq<char>, total: u64) -> Option<(u64, u64)> {
    if start.len() == 0 {
        match number_of(end) {
            Some(suffix) if suffix != 0 && total != 0 => Some(
                (
                    if suffix < total {
                        (total - suffix) as u64
                    } else {
                        0
                    },
                    (total - 1) as u64,
                ),
            ),
            _ => None,
        }
    } else {
        match number_of(start) {
            None => None,
            Some(from) => {
                let to = if end.len() == 0 {
                    Some(one_less(total))
                } else {
                    number_of(end)
                };
                match to {
                    Some(to) if from <= to && from < total => Some(
                        (from, lesser(to, one_less(total))),
                    ),
                    _ => None,
                }
            },
        }
    }
}

/// The bytes that a range asks for. Of several parts the first one counts.
pub open spec fn byte_range(value: Seq<char>, total: u64) -> Option<(u64, u64)> {
    match after_prefix(trimmed(value), "bytes="@) {
        None => None,
        Some(rest) => match cut(trimmed(pieces(rest, is_char(','))[0]), '-') {
            None => None,
            Some((start, end)) => range_of(start, end, total),
        },
    }
}

fn range_between(start: &str, end: &str, total: u64) -> (range: Option<(u64, u64)>)
    ensures
        range == range_of(start@, end@, total),
{
    if start.is_empty() {
        return match parse_number(end) {
            Some(suffix) => {
                if suffix == 0 || total == 0 {
                    None
                } else {
                    let from: u64 = if suffix < total {
                        total - suffix
                    } else {
                        0
                    };
                    Some((from, total - 1))
                }
            },
            None => None,
        };
    }
    let from: u64 = match parse_number(start) {
        Some(from) => from,
        None => return None,
    };
    let last: u64 = if total == 0 {
        0
    } else {
        total - 1
    };
    let to: u64 = if end.is_empty() {
        last
    } else {
        match parse_number(end) {
            Some(to) => to,
            None => return None,
        }
    };
    if from <= to && from < total {
        Some(
            (
                from,
                if to < last {
                    to
                } else {
                    last
                },
            ),
        )
    } else {
        None
    }
}

/// The first and the last byte that a range asks for, of a file of `total` bytes.
pub fn parse_byte_range(value: &str, total: u64) -> (range: Option<(u64, u64)>)
    ensures
        range == byte_range(value@, total),
        range matches Some((start, end)) ==> start <= end < total,
{
    let text = trim(value);
    if !starts_with(text.as_str(), "bytes=") {
        return None;
    }
    proof {
        reveal_strlit("bytes=");
    }
    let n: usize = text.as_str().unicode_len();
    let rest = text.as_str().substring_char(6, n);
    assert(rest@ =~= text@.skip(6));
    let parts = split_at_char(rest, ',');
    proof {
        lemma_pieces_some(rest@, is_char(','));
    }
    assert(parts.deep_view()[0] == parts[0]@);
    let part = trim(parts[0].as_str());
    match split_once(part.as_str(), '-') {
        Some((start, end)) => range_between(start.as_str(), end.as_str(), total),
        None => None,
    }
}

proof fn lemma_pieces_some(s: Seq<char>, p: spec_fn(char) -> bool)
    ensures
        pieces(s, p).len() > 0,
    decreases s.len(),
{
    if s.len() > 0 {
        lemma_pieces_some(s.drop_last(), p);
    }
}

/// A part of a file that is sent: its status, its first and last byte and its
/// length.
pub struct MediaSpan {
    pub status: StatusCode,
    pub start: u64,
    pub end: u64,
    pub length: u64,
    /// What is said of the part where it is not the whole.
    pub content_range: Option<String>,
}

/// What is said of a part of a file.
pub open spec fn content_range(start: u64, end: u64, total: u64) -> Seq<char> {
    "bytes "@ + decimal(start as nat) + "-"@ + decimal(end as nat) + "/"@ + decimal(total as nat)
}

/// The part of a file of `total` bytes that is sent when a range was asked for
/// or, with `None`, when none was.
pub fn media_span(range: Option<&str>, total: u64) -> (span: MediaSpan)
    ensures
        match range {
            None => {
                &&& span.status == StatusCode::Okay
                &&& span.start == 0
                &&& span.end == one_less(total)
                &&& span.length == total
                &&& span.content_range is None
            },
            Some(range) => match byte_range(range@, total) {
                Some((start, end)) => {
                    &&& span.status == StatusCode::PartialContent
                    &&& span.start == start
                    &&& span.end == end
                    &&& span.length == end - start + 1
                    &&& span.content_range matches Some(text)
                    &&& text@ == content_range(start, end, total)
                },
                None => {
                    &&& span.status == StatusCode::RangeNotSatisfiable
                    &&& span.length == 0
                    &&& span.content_range matches Some(text)
                    &&& text@ == "bytes */"@ + decimal(total as nat)
                },
            },
        },
{
    match range {
        None => MediaSpan {
            status: StatusCode::Okay,
            start: 0,
            end: if total == 0 {
                0
            } else {
                total - 1
            },
            length: total,
            content_range: None,
        },
        Some(range) => match parse_byte_range(range, total) {
            Some((start, end)) => {
                let text = "bytes ".to_owned().concat(decimal_text(start).as_str()).concat(
                    "-",
                ).concat(decimal_text(end).as_str()).concat("/").concat(
                    decimal_text(total).as_str(),
                );
                MediaSpan {
                    status: StatusCode::PartialContent,
                    start,
                    end,
                    length: end - start + 1,
                    content_range: Some(text),
                }
            },
            None => MediaSpan {
                status: StatusCode::RangeNotSatisfiable,
                start: 0,
                end: 0,
                length: 0,
                content_range: Some(
                    "bytes */".to_owned().concat(decimal_text(total).as_str()),
                ),
            },
        },
    }
}

/// The formats of pictures that personas have.
#[derive(Debug, Clone, Copy, PartialEq, Eq, Structural)]
pub enum ImageKind {
    Png,
    Jpeg,
    Gif,
    WebP,
    Bmp,
    Other,
}

/// The format that `image::guess_format` sees in bytes, if it sees one.
pub uninterp spec fn guessed_kind(bytes: Seq<u8>) -> Option<ImageKind>;

/// `image::guess_format`, which looks at the first bytes of a file; `None`
/// stands for its error, and `Other` for every format that is not listed. Which
/// bytes show which format is named, not described.
#[verifier::external_body]
fn guess_kind(bytes: &Vec<u8>) -> (kind: Option<ImageKind>)
    ensures
        kind == guessed_kind(bytes@),
{
    match image::guess_format(bytes) {
        Ok(image::ImageFormat::Png) => Some(ImageKind::Png),
        Ok(image::ImageFormat::Jpeg) => Some(ImageKind::Jpeg),
        Ok(image::ImageFormat::Gif) => Some(ImageKind::Gif),
        Ok(image::ImageFormat::WebP) => Some(ImageKind::WebP),
        Ok(image::ImageFormat::Bmp) => Some(ImageKind::Bmp),
        Ok(_) => Some(ImageKind::Other),
        Err(_) => None,
    }
}

/// How large the picture of a persona may be that a page is shown, in bytes.
pub const MAX_AVATAR_BYTES: usize = 8388608;

impl ImageKind {
    pub open spec fn mime(self) -> Option<Seq<char>> {
        match self {
            ImageKind::Png => Some("image/png"@),
            ImageKind::Jpeg => Some("image/jpeg"@),
            ImageKind::Gif => Some("image/gif"@),
            ImageKind::WebP => Some("image/webp"@),
            ImageKind::Bmp => Some("image/bmp"@),
            ImageKind::Other => None,
        }
    }

    pub open spec fn extension(self) -> Option<Seq<char>> {
        match self {
            ImageKind::Png => Some("png"@),
            ImageKind::Jpeg => Some("jpg"@),
            ImageKind::Gif => Some("gif"@),
            ImageKind::WebP => Some("webp"@),
            ImageKind::Bmp => Some("bmp"@),
            ImageKind::Other => None,
        }
    }
}

/// The media type of a picture of `size` bytes in a format, if it is shown.
pub open spec fn avatar_check(size: nat, kind: Option<ImageKind>) -> Result<Seq<char>, ApiErrorModel> {
    if size > MAX_AVATAR_BYTES {
        Err(ApiErrorModel::new(StatusCode::PayloadTooLarge, "persona avatar is too large"@))
    } else {
        match kind {
            None => Err(
                ApiErrorModel::new(StatusCode::NotFound, "persona avatar is not an image"@),
            ),
            Some(kind) => match kind.mime() {
                Some(mime) => Ok(mime),
                None => Err(
                    ApiErrorModel::new(
                        StatusCode::NotFound,
                        "persona avatar format is unsupported"@,
                    ),
                ),
            },
        }
    }
}

/// The media type of a picture of `size` bytes in a format, if it is shown.
pub fn avatar_mime_of(size: usize, kind: Option<ImageKind>) -> (result: Result<String, ApiError>)
    ensures
        checked(result, avatar_check(size as nat, kind)),
{
    if size > MAX_AVATAR_BYTES {
        return Err(ApiError::new(StatusCode::PayloadTooLarge, "persona avatar is too large"));
    }
    match kind {
        None => Err(ApiError::new(StatusCode::NotFound, "persona avatar is not an image")),
        Some(ImageKind::Png) => Ok("image/png".to_owned()),
        Some(ImageKind::Jpeg) => Ok("image/jpeg".to_owned()),
        Some(ImageKind::Gif) => Ok("image/gif".to_owned()),
        Some(ImageKind::WebP) => Ok("image/webp".to_owned()),
        Some(ImageKind::Bmp) => Ok("image/bmp".to_owned()),
        Some(ImageKind::Other) => Err(
            ApiError::new(StatusCode::NotFound, "persona avatar format is unsupported"),
        ),
    }
}

/// The media type of the picture of a persona, if it is shown.
pub fn avatar_mime(bytes: &Vec<u8>) -> (result: Result<String, ApiError>)
    ensures
        checked(result, avatar_check(bytes@.len(), guessed_kind(bytes@))),
{
    avatar_mime_of(bytes.len(), guess_kind(bytes))
}

/// What a picture is kept as that is sent for a persona: its digest, and the
/// extension of its format.
pub open spec fn upload_check(
    size: nat,
    limit: nat,
    kind: Option<ImageKind>,
    hash: Seq<char>,
) -> Result<Seq<char>, ApiErrorModel> {
    if size == 0 {
        Err(ApiErrorModel::bad("image is empty"@))
    } else if size > limit {
        Err(ApiErrorModel::new(StatusCode::PayloadTooLarge, "persona image is too large"@))
    } else {
        match kind {
            None => Err(ApiErrorModel::bad("unsupported image format"@)),
            Some(kind) => match kind.extension() {
                None => Err(ApiErrorModel::bad("unsupported image format"@)),
                Some(extension) => Ok(hash + "."@ + extension),
            },
        }
    }
}

/// What a picture of `size` bytes is kept as that is sent for a persona.
pub fn asset_name_of(size: usize, limit: usize, kind: Option<ImageKind>, hash: &str) -> (result:
    Result<String, ApiError>)
    ensures
        checked(result, upload_check(size as nat, limit as nat, kind, hash@)),
{
    if size == 0 {
        return Err(ApiError::new(StatusCode::BadRequest, "image is empty"));
    }
    if size > limit {
        return Err(ApiError::new(StatusCode::PayloadTooLarge, "persona image is too large"));
    }
    let extension = match kind {
        Some(ImageKind::Png) => "png",
        Some(ImageKind::Jpeg) => "jpg",
        Some(ImageKind::Gif) => "gif",
        Some(ImageKind::WebP) => "webp",
        Some(ImageKind::Bmp) => "bmp",
        _ => return Err(ApiError::new(StatusCode::BadRequest, "unsupported image format")),
    };
    Ok(hash.to_owned().concat(".").concat(extension))
}

/// What a picture is kept as that is sent for a persona.
pub fn persona_asset_name(body: &Vec<u8>, limit: usize) -> (result: Result<String, ApiError>)
    ensures
        checked(
            result,
            upload_check(
                body@.len(),
                limit as nat,
                guessed_kind(body@),
                hex_of(sha256(body@)),
            ),
        ),
{
    let hash = hex_bytes(&sha256_of(body.as_slice()));
    asset_name_of(body.len(), limit, guess_kind(body), hash.as_str())
}

/// Whether a file holds the picture that it is named after.
pub fn verify_persona_asset_hash(bytes: &Vec<u8>, expected_hash: &str, limit: usize) -> (result:
    Result<(), ApiError>)
    ensures
        checked(
            result,
            if bytes@.len() > limit || hex_of(sha256(bytes@)) != expected_hash@ {
                Err(
                    ApiErrorModel::new(
                        StatusCode::Conflict,
                        "persona asset cache entry is corrupted"@,
                    ),
                )
            } else {
                Ok(())
            },
        ),
{
    if bytes.len() > limit || !same(
        hex_bytes(&sha256_of(bytes.as_slice())).as_str(),
        expected_hash,
    ) {
        Err(ApiError::new(StatusCode::Conflict, "persona asset cache entry is corrupted"))
    } else {
        Ok(())
    }
}

/// The page with the build that its files are of, so that no other is used.
pub fn versioned_index(html: &str, build: &str) -> (page: String)
    ensures
        page@ == replaced(
            replaced(
                replaced(
                    replaced(
                        html@,
                        "href=\"/styles.css\""@,
                        "href=\"/styles.css?v="@ + build@ + "\""@,
                    ),
                    "src=\"/app.js\""@,
                    "src=\"/app.js?v="@ + build@ + "\""@,
                ),
                "href=\"/vendor/katex/katex.min.css\""@,
                "href=\"/vendor/katex/katex.min.css?v="@ + build@ + "\""@,
            ),
            "src=\"/vendor/katex/katex.min.js\""@,
            "src=\"/vendor/katex/katex.min.js?v="@ + build@ + "\""@,
        ),
{
    proof {
        reveal_strlit("href=\"/styles.css\"");
        reveal_strlit("src=\"/app.js\"");
        reveal_strlit("href=\"/vendor/katex/katex.min.css\"");
        reveal_strlit("src=\"/vendor/katex/katex.min.js\"");
    }
    let styles = "href=\"/styles.css?v=".to_owned().concat(build).concat("\"");
    let app = "src=\"/app.js?v=".to_owned().concat(build).concat("\"");
    let sheet = "href=\"/vendor/katex/katex.min.css?v=".to_owned().concat(build).concat("\"");
    let script = "src=\"/vendor/katex/katex.min.js?v=".to_owned().concat(build).concat("\"");
    let page = replace(html, "href=\"/styles.css\"", styles.as_str());
    let page = replace(page.as_str(), "src=\"/app.js\"", app.as_str());
    let page = replace(
        page.as_str(),
        "href=\"/vendor/katex/katex.min.css\"",
        sheet.as_str(),
    );
    replace(page.as_str(), "src=\"/vendor/katex/katex.min.js\"", script.as_str())
}

} // verus!
