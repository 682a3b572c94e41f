use friends_watcher::avatars::{
    begin_avatar_download, cache_file_names, downscale_to_thumbnail, validate_avatar_url,
    validate_ig_user_id, AVATAR_THUMB_MAX, MAX_AVATAR_BYTES,
};
use friends_watcher::error::{AppError, IoErrorKind};
use image::codecs::jpeg::JpegEncoder;
use image::{ExtendedColorType, ImageEncoder, RgbImage};

#[test]
fn validate_ig_user_id_accepts_numeric_strings() {
    assert!(validate_ig_user_id("42").is_ok());
    assert!(validate_ig_user_id("1234567890").is_ok());
}

#[test]
fn validate_ig_user_id_rejects_bad_inputs() {
    assert!(validate_ig_user_id("").is_err());
    assert!(validate_ig_user_id("../../etc/passwd").is_err());
    assert!(validate_ig_user_id("42/43").is_err());
    assert!(validate_ig_user_id("42.tmp").is_err());
    assert!(validate_ig_user_id("abc").is_err());
    // Oversize input is rejected too.
    let long = "1".repeat(65);
    assert!(validate_ig_user_id(&long).is_err());
}

#[test]
fn validate_ig_user_id_accepts_sixty_four_digits_and_names_the_error() {
    assert!(validate_ig_user_id(&"9".repeat(64)).is_ok());
    match validate_ig_user_id("4٢") {
        Err(AppError::Io(f)) => {
            assert_eq!(f.kind, IoErrorKind::InvalidInput);
            assert_eq!(f.message, "ig_user_id must be a non-empty numeric string");
        }
        other => panic!("unexpected {:?}", other),
    }
}

#[test]
fn validate_avatar_url_accepts_ig_cdn_https() {
    assert!(validate_avatar_url("https://scontent-sjc3-1.cdninstagram.com/v/t51.0-19/abc.jpg").is_ok());
    assert!(validate_avatar_url("https://scontent.fbcdn.net/v/t51/x.jpg").is_ok());
}

#[test]
fn validate_avatar_url_rejects_non_ig_hosts_and_non_https() {
    assert!(validate_avatar_url("http://scontent.cdninstagram.com/x").is_err());
    assert!(validate_avatar_url("https://evil.example.com/x").is_err());
    assert!(validate_avatar_url("https://cdninstagram.com.evil.example/x").is_err());
    assert!(validate_avatar_url("file:///etc/passwd").is_err());
    assert!(validate_avatar_url("not a url").is_err());
    assert!(validate_avatar_url("").is_err());
}

#[test]
fn validate_avatar_url_reports_each_refusal_and_keeps_the_parse() {
    let message = |raw: &str| match validate_avatar_url(raw) {
        Err(AppError::Io(f)) => f.message,
        other => panic!("unexpected {:?}", other),
    };
    assert_eq!(message("not a url"), "avatar url is not a valid URL");
    assert_eq!(message("http://scontent.cdninstagram.com/x"), "avatar url must use https");
    assert_eq!(message("https://evil.example.com/x"), "avatar url host is not an Instagram CDN");
    let ok = validate_avatar_url("https://CDNINSTAGRAM.com/a b").unwrap();
    assert_eq!(ok.scheme, "https");
    assert_eq!(ok.host.as_deref(), Some("cdninstagram.com"));
    assert_eq!(ok.href, "https://cdninstagram.com/a%20b");
    assert!(validate_avatar_url("https://fbcdn.net/").is_ok());
}

#[test]
fn downscale_returns_none_on_garbage_input() {
    assert!(downscale_to_thumbnail(b"not an image at all").is_none());
}

#[test]
fn thumbnail_roundtrip_smaller_than_source() {
    let mut img = RgbImage::new(512, 512);
    for (x, y, pixel) in img.enumerate_pixels_mut() {
        let r = (x & 0xFF) as u8;
        let g = (y & 0xFF) as u8;
        let b = ((x ^ y) & 0xFF) as u8;
        *pixel = image::Rgb([r, g, b]);
    }

    let mut source = Vec::new();
    let encoder = JpegEncoder::new_with_quality(&mut source, 90);
    encoder
        .write_image(img.as_raw(), 512, 512, ExtendedColorType::Rgb8)
        .expect("source JPEG should encode");

    let thumb = downscale_to_thumbnail(&source).expect("downscale should succeed on valid JPEG");
    assert!(
        thumb.len() < source.len(),
        "thumbnail bytes ({}) must be strictly smaller than source ({})",
        thumb.len(),
        source.len()
    );

    let decoded = image::ImageReader::new(std::io::Cursor::new(&thumb))
        .with_guessed_format()
        .expect("thumb format should be guessable")
        .decode()
        .expect("thumb should decode");
    let max_dim = decoded.width().max(decoded.height());
    assert!(
        max_dim <= AVATAR_THUMB_MAX,
        "max thumbnail dimension {} exceeds target {}",
        max_dim,
        AVATAR_THUMB_MAX
    );
}

#[test]
fn avatar_download_checks_status_and_declared_length() {
    match begin_avatar_download(404, None) {
        Err(AppError::Io(f)) => {
            assert_eq!(f.kind, IoErrorKind::Other);
            assert_eq!(f.message, "avatar fetch returned HTTP 404");
        }
        _ => panic!("404 must fail"),
    }
    match begin_avatar_download(200, Some(MAX_AVATAR_BYTES as u64 + 1)) {
        Err(AppError::Io(f)) => {
            assert_eq!(f.kind, IoErrorKind::InvalidData);
            assert_eq!(f.message, "avatar response exceeds 5242880-byte cap");
        }
        _ => panic!("oversized declared length must fail"),
    }
    assert!(begin_avatar_download(200, Some(MAX_AVATAR_BYTES as u64)).is_ok());
    assert!(begin_avatar_download(204, None).is_ok());
    assert!(begin_avatar_download(300, None).is_err());
}

#[test]
fn avatar_download_never_exceeds_the_cap() {
    let mut d = begin_avatar_download(200, None).unwrap();
    d.push_chunk(b"abc").unwrap();
    d.push_chunk(b"def").unwrap();
    assert_eq!(d.bytes().as_slice(), b"abcdef");
    let big = vec![7u8; MAX_AVATAR_BYTES - 6];
    d.push_chunk(&big).unwrap();
    assert_eq!(d.bytes().len(), MAX_AVATAR_BYTES);
    assert!(d.push_chunk(b"x").is_err());
    assert_eq!(d.bytes().len(), MAX_AVATAR_BYTES);
    // Bytes that are no picture are kept as they came.
    let (payload, downscaled) = d.into_payload();
    assert!(!downscaled);
    assert_eq!(payload.len(), MAX_AVATAR_BYTES);
    assert_eq!(&payload[..6], b"abcdef");
}

#[test]
fn cache_file_names_use_the_id_and_a_tmp_sidecar() {
    let (name, tmp) = cache_file_names("99");
    assert_eq!(name, "99");
    assert_eq!(tmp, "99.tmp");
}

#[test]
fn finished_download_of_a_picture_is_cached_as_thumbnail() {
    let img = RgbImage::from_fn(200, 100, |x, y| image::Rgb([x as u8, y as u8, 7]));
    let mut source = Vec::new();
    JpegEncoder::new_with_quality(&mut source, 90)
        .write_image(img.as_raw(), 200, 100, ExtendedColorType::Rgb8)
        .unwrap();
    let mut d = begin_avatar_download(200, Some(source.len() as u64)).unwrap();
    d.push_chunk(&source).unwrap();
    let (payload, downscaled) = d.into_payload();
    assert!(downscaled);
    assert_eq!(&payload[..2], &[0xFF, 0xD8]);
    assert_eq!(&payload[payload.len() - 2..], &[0xFF, 0xD9]);
    let decoded = image::load_from_memory(&payload).unwrap();
    assert_eq!((decoded.width(), decoded.height()), (64, 32));
}

#[test]
fn thumbnail_of_a_wide_picture_keeps_its_aspect_ratio() {
    let img = RgbImage::from_fn(300, 150, |x, _| image::Rgb([x as u8, 0, 0]));
    let mut source = Vec::new();
    JpegEncoder::new_with_quality(&mut source, 90)
        .write_image(img.as_raw(), 300, 150, ExtendedColorType::Rgb8)
        .unwrap();
    let thumb = downscale_to_thumbnail(&source).unwrap();
    let decoded = image::load_from_memory(&thumb).unwrap();
    assert_eq!((decoded.width(), decoded.height()), (64, 32));
    assert_eq!(&thumb[..2], &[0xFF, 0xD8]);
}
