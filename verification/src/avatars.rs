//! Profile pictures: which ids and URLs may be fetched, how much of a
//! response is accepted, and the thumbnail that is cached.

use vstd::prelude::*;
use vstd::string::*;

use crate::error::{is_io_error, AppError, IoErrorKind};
use crate::text::{chars_end_with, chars_of, decimal_int, ends_with_chars, opt_chars, str_equal,
    u64_to_decimal};

verus! {

/// The most bytes an avatar response may have. Profile pictures are well
/// under a megabyte; the cap keeps an oversized or hostile response from
/// filling memory.
pub const MAX_AVATAR_BYTES: usize = 5242880;

/// The longest edge of a cached thumbnail, in pixels.
pub const AVATAR_THUMB_MAX: u32 = 64;

/// The JPEG quality of a cached thumbnail.
pub const AVATAR_THUMB_JPEG_QUALITY: u8 = 85;

/// The message of a response over [`MAX_AVATAR_BYTES`].
pub const AVATAR_TOO_LARGE: &'static str = "avatar response exceeds 5242880-byte cap";

// ---------------------------------------------------------------------------
// Ids and URLs
// ---------------------------------------------------------------------------

/// Whether `c` is one of the ASCII digits.
pub open spec fn is_digit(c: char) -> bool {
    '0' <= c && c <= '9'
}

/// Whether `id` is a valid Instagram user id: 1 to 64 ASCII digits. Such an
/// id is safe to use as a cache file name.
pub open spec fn valid_user_id(id: Seq<char>) -> bool {
    &&& 0 < id.len() <= 64
    &&& forall|i: int| 0 <= i < id.len() ==> is_digit(#[trigger] id[i])
}

/// Accepts a user id made of 1 to 64 ASCII digits; refuses anything else as
/// invalid input.
pub fn validate_ig_user_id(id: &str) -> (r: Result<(), AppError>)
    ensures
        r is Ok <==> valid_user_id(id@),
        r matches Err(e) ==> is_io_error(
            e,
            IoErrorKind::InvalidInput,
            "ig_user_id must be a non-empty numeric string"@,
        ),
{
    let v = chars_of(id);
    let mut ok = v.len() > 0 && v.len() <= 64;
    let mut i: usize = 0;
    while i < v.len()
        invariant
            i <= v.len(),
            v@ == id@,
            ok == (0 < v.len() <= 64 && forall|k: int| 0 <= k < i ==> is_digit(#[trigger] v@[k])),
        decreases v.len() - i,
    {
        if !('0' <= v[i] && v[i] <= '9') {
            ok = false;
        }
        i = i + 1;
    }
    if !ok {
        return Err(
            AppError::io(
                IoErrorKind::InvalidInput,
                "ig_user_id must be a non-empty numeric string",
            ),
        );
    }
    Ok(())
}

/// A parsed URL: its scheme, its host where it has one, and its serialized
/// form.
#[derive(Debug, Clone)]
pub struct ParsedUrl {
    pub scheme: String,
    pub host: Option<String>,
    pub href: String,
}

/// What the `url` crate's `Url::parse` (as `reqwest::Url`) makes of a text:
/// the scheme, the host and the serialization; `None` where it refuses it.
pub uninterp spec fn url_parse(raw: Seq<char>) -> Option<(Seq<char>, Option<Seq<char>>, Seq<char>)>;

/// Parses `raw` with `reqwest::Url::parse` and reads its scheme, host and
/// serialization; the result is named by [`url_parse`].
#[verifier::external_body]
fn parse_url(raw: &str) -> (r: Option<ParsedUrl>)
    ensures
        match r {
            Some(u) => url_parse(raw@) == Some((u.scheme@, opt_chars(u.host), u.href@)),
            None => url_parse(raw@) is None,
        },
{
    match reqwest::Url::parse(raw) {
        Ok(u) => {
            let host = match u.host_str() {
                Some(h) => Some(h.to_string()),
                None => None,
            };
            Some(ParsedUrl { scheme: u.scheme().to_string(), host, href: u.as_str().to_string() })
        },
        Err(_) => None,
    }
}

/// Whether avatars may be fetched from `host`: Instagram's image CDNs,
/// `cdninstagram.com` and `fbcdn.net` and their subdomains.
pub open spec fn cdn_host(host: Seq<char>) -> bool {
    ||| host == "cdninstagram.com"@
    ||| host == "fbcdn.net"@
    ||| ends_with_chars(host, ".cdninstagram.com"@)
    ||| ends_with_chars(host, ".fbcdn.net"@)
}

/// The host of a parsed URL, or the empty text where it has none.
pub open spec fn host_or_empty(host: Option<Seq<char>>) -> Seq<char> {
    match host {
        Some(h) => h,
        None => seq![],
    }
}

/// Accepts an avatar URL only where it parses, uses `https` and points at an
/// Instagram image CDN, so that the avatar fetch cannot be turned into a
/// general-purpose HTTP proxy. Each refusal is invalid input with its own
/// message.
pub fn validate_avatar_url(raw: &str) -> (r: Result<ParsedUrl, AppError>)
    ensures
        url_parse(raw@) is None ==> (r matches Err(e) && is_io_error(
            e,
            IoErrorKind::InvalidInput,
            "avatar url is not a valid URL"@,
        )),
        (url_parse(raw@) matches Some(p) && p.0 != "https"@) ==> (r matches Err(e) && is_io_error(
            e,
            IoErrorKind::InvalidInput,
            "avatar url must use https"@,
        )),
        (url_parse(raw@) matches Some(p) && p.0 == "https"@ && !cdn_host(host_or_empty(p.1)))
            ==> (r matches Err(e) && is_io_error(
            e,
            IoErrorKind::InvalidInput,
            "avatar url host is not an Instagram CDN"@,
        )),
        r is Ok <==> (url_parse(raw@) matches Some(p) && p.0 == "https"@ && cdn_host(
            host_or_empty(p.1),
        )),
        r matches Ok(u) ==> url_parse(raw@) == Some((u.scheme@, opt_chars(u.host), u.href@)),
{
    let parsed = match parse_url(raw) {
        Some(u) => u,
        None => {
            return Err(AppError::io(IoErrorKind::InvalidInput, "avatar url is not a valid URL"));
        },
    };
    if !str_equal(parsed.scheme.as_str(), "https") {
        return Err(AppError::io(IoErrorKind::InvalidInput, "avatar url must use https"));
    }
    let host: &str = match &parsed.host {
        Some(h) => h.as_str(),
        None => "",
    };
    proof {
        reveal_strlit("");
        assert(""@ =~= Seq::<char>::empty());
    }
    assert(host@ == host_or_empty(opt_chars(parsed.host)));
    let host_chars = chars_of(host);
    let allowed = str_equal(host, "cdninstagram.com") || str_equal(host, "fbcdn.net")
        || chars_end_with(&host_chars, &chars_of(".cdninstagram.com")) || chars_end_with(
        &host_chars,
        &chars_of(".fbcdn.net"),
    );
    if !allowed {
        return Err(
            AppError::io(IoErrorKind::InvalidInput, "avatar url host is not an Instagram CDN"),
        );
    }
    Ok(parsed)
}

// ---------------------------------------------------------------------------
// Downloading
// ---------------------------------------------------------------------------

/// The body of an avatar response as it arrives, never more than
/// [`MAX_AVATAR_BYTES`].
#[derive(Debug)]
pub struct AvatarDownload {
    body: Vec<u8>,
}

/// The message of a response with a status outside 200..=299.
pub open spec fn avatar_status_message(status: u16) -> Seq<char> {
    "avatar fetch returned HTTP "@ + decimal_int(status as int)
}

/// Whether a declared body length is over [`MAX_AVATAR_BYTES`].
pub open spec fn declared_too_large(content_length: Option<u64>) -> bool {
    match content_length {
        Some(n) => n > MAX_AVATAR_BYTES,
        None => false,
    }
}

/// Starts the download of an avatar after the response head: a status
/// outside 200..=299 is an error that names it, a declared length over
/// [`MAX_AVATAR_BYTES`] is refused as invalid data before any byte is read.
pub fn begin_avatar_download(status: u16, content_length: Option<u64>) -> (r: Result<
    AvatarDownload,
    AppError,
>)
    ensures
        !(200 <= status <= 299) ==> (r matches Err(e) && is_io_error(
            e,
            IoErrorKind::Other,
            avatar_status_message(status),
        )),
        200 <= status <= 299 && declared_too_large(content_length) ==> (r matches Err(e)
            && is_io_error(e, IoErrorKind::InvalidData, AVATAR_TOO_LARGE@)),
        r is Ok <==> 200 <= status <= 299 && !declared_too_large(content_length),
        r matches Ok(d) ==> d.received().len() == 0,
{
    if !(200 <= status && status <= 299) {
        let message = "avatar fetch returned HTTP ".to_string().concat(
            u64_to_decimal(status as u64).as_str(),
        );
        return Err(AppError::io(IoErrorKind::Other, message.as_str()));
    }
    if let Some(declared) = content_length {
        if declared > MAX_AVATAR_BYTES as u64 {
            return Err(AppError::io(IoErrorKind::InvalidData, AVATAR_TOO_LARGE));
        }
    }
    Ok(AvatarDownload { body: Vec::new() })
}

impl AvatarDownload {
    #[verifier::type_invariant]
    spec fn within_cap(self) -> bool {
        self.body@.len() <= MAX_AVATAR_BYTES
    }

    /// The bytes received so far.
    pub closed spec fn received(self) -> Seq<u8> {
        self.body@
    }

    /// Takes in the next chunk of the body. A chunk that would carry the body
    /// over [`MAX_AVATAR_BYTES`] is refused as invalid data and leaves the
    /// body as it was, so that a missing or false declared length cannot get
    /// past the cap.
    pub fn push_chunk(&mut self, chunk: &[u8]) -> (r: Result<(), AppError>)
        ensures
            final(self).received().len() <= MAX_AVATAR_BYTES,
            old(self).received().len() + chunk@.len() > MAX_AVATAR_BYTES ==> {
                &&& r matches Err(e) && is_io_error(e, IoErrorKind::InvalidData, AVATAR_TOO_LARGE@)
                &&& final(self).received() == old(self).received()
            },
            old(self).received().len() + chunk@.len() <= MAX_AVATAR_BYTES ==> {
                &&& r is Ok
                &&& final(self).received() == old(self).received() + chunk@
            },
    {
        proof {
            use_type_invariant(&*self);
        }
        if chunk.len() > MAX_AVATAR_BYTES - self.body.len() {
            return Err(AppError::io(IoErrorKind::InvalidData, AVATAR_TOO_LARGE));
        }
        let mut body: Vec<u8> = Vec::new();
        std::mem::swap(&mut body, &mut self.body);
        body.extend_from_slice(chunk);
        assert(body@ =~= old(self).received() + chunk@);
        std::mem::swap(&mut body, &mut self.body);
        Ok(())
    }

    /// The bytes received so far.
    pub fn bytes(&self) -> (r: &Vec<u8>)
        ensures
            r@ == self.received(),
            r@.len() <= MAX_AVATAR_BYTES,
    {
        proof {
            use_type_invariant(self);
        }
        &self.body
    }

    /// What is cached and returned for the finished download, and whether it
    /// is a thumbnail: the thumbnail where one can be made, else the bytes
    /// exactly as received.
    pub fn into_payload(self) -> (r: (Vec<u8>, bool))
        ensures
            r.1 == (avatar_thumbnail(self.received()) is Some),
            r.0@ == match avatar_thumbnail(self.received()) {
                Some(t) => t,
                None => self.received(),
            },
            r.1 ==> jpeg_framed(r.0@),
    {
        let body = self.body;
        match downscale_to_thumbnail(body.as_slice()) {
            Some(thumb) => (thumb, true),
            None => (body, false),
        }
    }
}

// ---------------------------------------------------------------------------
// Thumbnails
// ---------------------------------------------------------------------------

/// Whether `b` is framed as a JPEG stream: it opens with the start-of-image
/// marker `FF D8` and closes with the end-of-image marker `FF D9`.
pub open spec fn jpeg_framed(b: Seq<u8>) -> bool {
    &&& b.len() >= 4
    &&& b[0] == 0xFFu8
    &&& b[1] == 0xD8u8
    &&& b[b.len() - 2] == 0xFFu8
    &&& b[b.len() - 1] == 0xD9u8
}

/// What the `image` crate's thumbnail pipeline makes of the bytes: decoded
/// with `image::load_from_memory`, scaled with `DynamicImage::thumbnail` to
/// fit `max_edge` by `max_edge`, converted with `DynamicImage::to_rgb8`, and
/// written by a `JpegEncoder` of the given quality; `None` where decoding or
/// encoding fails. A function of its arguments alone.
pub uninterp spec fn thumbnail_jpeg(bytes: Seq<u8>, max_edge: u32, quality: u8) -> Option<Seq<u8>>;

/// Runs the `image` crate's thumbnail pipeline; the result is named by
/// [`thumbnail_jpeg`]. Where it succeeds, the encoder has written its
/// start-of-image marker first and its end-of-image marker last
/// (`JpegEncoder::encode_image` in the crate's source).
#[verifier::external_body]
fn run_thumbnail_pipeline(bytes: &[u8], max_edge: u32, quality: u8) -> (r: Option<Vec<u8>>)
    ensures
        match r {
            Some(b) => thumbnail_jpeg(bytes@, max_edge, quality) == Some(b@) && jpeg_framed(b@),
            None => thumbnail_jpeg(bytes@, max_edge, quality) is None,
        },
{
    let decoded = image::load_from_memory(bytes).ok()?;
    let rgb = image::DynamicImage::ImageRgb8(decoded.thumbnail(max_edge, max_edge).to_rgb8());
    let mut out: Vec<u8> = Vec::new();
    let encoder = image::codecs::jpeg::JpegEncoder::new_with_quality(&mut out, quality);
    rgb.write_with_encoder(encoder).ok()?;
    Some(out)
}

/// The cached thumbnail of an avatar: the picture decoded, scaled to fit
/// [`AVATAR_THUMB_MAX`] on its longest edge, and re-encoded as JPEG of
/// quality [`AVATAR_THUMB_JPEG_QUALITY`].
pub open spec fn avatar_thumbnail(bytes: Seq<u8>) -> Option<Seq<u8>> {
    thumbnail_jpeg(bytes, AVATAR_THUMB_MAX, AVATAR_THUMB_JPEG_QUALITY)
}

/// Decodes the picture, scales it to fit [`AVATAR_THUMB_MAX`] on its longest
/// edge, and re-encodes it as JPEG of quality [`AVATAR_THUMB_JPEG_QUALITY`];
/// `None` where any step fails, so that the caller can keep the original
/// bytes. A thumbnail is a JPEG stream, framed by its start and end markers.
pub fn downscale_to_thumbnail(bytes: &[u8]) -> (r: Option<Vec<u8>>)
    ensures
        match r {
            Some(t) => avatar_thumbnail(bytes@) == Some(t@) && jpeg_framed(t@),
            None => avatar_thumbnail(bytes@) is None,
        },
{
    run_thumbnail_pipeline(bytes, AVATAR_THUMB_MAX, AVATAR_THUMB_JPEG_QUALITY)
}

/// The name of the cache file of `ig_user_id`'s avatar, and of the sidecar
/// it is written through.
pub fn cache_file_names(ig_user_id: &str) -> (r: (String, String))
    ensures
        r.0@ == ig_user_id@,
        r.1@ == ig_user_id@ + ".tmp"@,
{
    (ig_user_id.to_string(), ig_user_id.to_string().concat(".tmp"))
}

} // verus!
