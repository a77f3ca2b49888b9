use foto::images::{
    assemble_image, build_image_for_foto, fetch_target, fingerprint_from_bytes,
    get_image_from_type_and_bytes, get_image_hash, image_fingerprint, Download, ImageError,
    ImageForm, ImageUploadType, ImageUploadTypeError,
};
use image::{DynamicImage, ImageFormat, ImageOutputFormat, Rgb, RgbImage};
use std::str::FromStr;

fn solid(width: u32, height: u32) -> DynamicImage {
    DynamicImage::ImageRgb8(RgbImage::from_pixel(width, height, Rgb([120, 30, 200])))
}

fn rising(width: u32, height: u32) -> DynamicImage {
    DynamicImage::ImageRgb8(RgbImage::from_fn(width, height, |x, _| {
        let v = (x * 255 / (width - 1)) as u8;
        Rgb([v, v, v])
    }))
}

fn encoded(image: &DynamicImage, format: ImageOutputFormat) -> Vec<u8> {
    let mut bytes = Vec::new();
    image.write_to(&mut bytes, format).unwrap();
    bytes
}

fn png(image: &DynamicImage) -> Vec<u8> {
    encoded(image, ImageOutputFormat::Png)
}

fn form(image: Vec<u8>, image_type: ImageUploadType) -> ImageForm {
    ImageForm {
        image,
        image_type,
        title: "a title".to_string(),
        description: "a description".to_string(),
        mime: "image/png".to_string(),
        image_name: "given.bin".to_string(),
    }
}

#[test]
fn upload_types_are_named_in_any_case() {
    assert_eq!(ImageUploadType::parse("base64"), Ok(ImageUploadType::Base64));
    assert_eq!(ImageUploadType::parse("url"), Ok(ImageUploadType::Url));
    assert_eq!(ImageUploadType::parse("file"), Ok(ImageUploadType::File));
    assert_eq!(ImageUploadType::parse("URL"), Ok(ImageUploadType::Url));
    assert_eq!(ImageUploadType::parse("Base64"), Ok(ImageUploadType::Base64));
    assert_eq!(ImageUploadType::parse("fIlE"), Ok(ImageUploadType::File));
    assert_eq!(ImageUploadType::from_str("File"), Ok(ImageUploadType::File));
    assert_eq!("URL".parse::<ImageUploadType>(), Ok(ImageUploadType::Url));
    for bad in ["", "files", " url", "base 64", "jpeg"] {
        assert_eq!(
            ImageUploadType::parse(bad),
            Err(ImageUploadTypeError::ImageUploadTypeParseError)
        );
    }
    assert_eq!(
        ImageUploadType::from_lowercase("URL"),
        Err(ImageUploadTypeError::ImageUploadTypeParseError)
    );
}

#[test]
fn fingerprint_is_deterministic() {
    let image = rising(64, 48);
    let first = get_image_hash(&image);
    let second = get_image_hash(&image);
    assert_eq!(first, second);
    assert_eq!(first.len(), 8);
    let again = get_image_hash(&rising(64, 48));
    assert_eq!(first, again);
}

#[test]
fn fingerprint_is_the_gradient_hash() {
    assert_eq!(get_image_hash(&solid(40, 30)), vec![0u8; 8]);
    assert_eq!(get_image_hash(&rising(90, 80)), vec![0xffu8; 8]);
    let hasher = img_hash::HasherConfig::new().to_hasher();
    let image = DynamicImage::ImageRgb8(RgbImage::from_fn(32, 32, |x, y| {
        Rgb([(x * 7 % 256) as u8, (y * 13 % 256) as u8, ((x + y) % 256) as u8])
    }));
    assert_eq!(get_image_hash(&image), hasher.hash_image(&image).as_bytes().to_vec());
}

#[test]
fn fingerprint_needs_eight_bytes() {
    assert_eq!(fingerprint_from_bytes(&vec![1, 2, 3, 4, 5, 6, 7, 8]), Some([1, 2, 3, 4, 5, 6, 7, 8]));
    assert_eq!(fingerprint_from_bytes(&vec![1, 2, 3, 4, 5, 6, 7]), None);
    assert_eq!(fingerprint_from_bytes(&vec![0; 9]), None);
    assert_eq!(fingerprint_from_bytes(&vec![]), None);
}

#[test]
fn file_upload_decodes_the_bytes_themselves() {
    let bytes = png(&solid(5, 4));
    let (image, format, file) =
        get_image_from_type_and_bytes(&ImageUploadType::File, &bytes, &Download::NotAttempted)
            .unwrap();
    assert_eq!(format, ImageFormat::Png);
    assert_eq!(file, None);
    assert_eq!(image.to_rgb8().dimensions(), (5, 4));
    let jpeg = encoded(&solid(6, 7), ImageOutputFormat::Jpeg(90));
    let (_, format, _) =
        get_image_from_type_and_bytes(&ImageUploadType::File, &jpeg, &Download::Failed).unwrap();
    assert_eq!(format, ImageFormat::Jpeg);
}

#[test]
fn unsupported_format() {
    for bytes in [&b"this is no image"[..], &[], &[0x89, b'P', b'N', b'G']] {
        let result =
            get_image_from_type_and_bytes(&ImageUploadType::File, bytes, &Download::NotAttempted);
        assert_eq!(result.err(), Some(ImageError::UnsupportedFormat));
    }
    let built = build_image_for_foto(
        form(b"this is no image".to_vec(), ImageUploadType::File),
        "ada",
        &Download::NotAttempted,
        None,
    );
    assert_eq!(built.err(), Some(ImageError::UnsupportedFormat));
}

#[test]
fn base64_upload_decodes_the_text() {
    let bytes = png(&solid(9, 2));
    let text = base64::encode(&bytes);
    let (image, format, file) = get_image_from_type_and_bytes(
        &ImageUploadType::Base64,
        text.as_bytes(),
        &Download::NotAttempted,
    )
    .unwrap();
    assert_eq!(format, ImageFormat::Png);
    assert_eq!(file, Some(bytes));
    assert_eq!(image.to_rgb8().dimensions(), (9, 2));
}

#[test]
fn base64_upload_needs_valid_text() {
    let not_utf8 = [0xff, 0xfe, 0x41];
    let r = get_image_from_type_and_bytes(&ImageUploadType::Base64, &not_utf8, &Download::NotAttempted);
    assert_eq!(r.err(), Some(ImageError::EncodingMismatch));
    let r = get_image_from_type_and_bytes(&ImageUploadType::Base64, b"***", &Download::NotAttempted);
    assert_eq!(r.err(), Some(ImageError::EncodingMismatch));
    let no_image = base64::encode(b"no image");
    let r = get_image_from_type_and_bytes(
        &ImageUploadType::Base64,
        no_image.as_bytes(),
        &Download::NotAttempted,
    );
    assert_eq!(r.err(), Some(ImageError::UnsupportedFormat));
}

#[test]
fn url_upload_decodes_the_answer() {
    let bytes = png(&solid(3, 3));
    let answered = Download::Answered { success: true, body: bytes.clone() };
    let (_, format, file) =
        get_image_from_type_and_bytes(&ImageUploadType::Url, b"http://example.org/a.png", &answered)
            .unwrap();
    assert_eq!(format, ImageFormat::Png);
    assert_eq!(file, Some(bytes));
}

#[test]
fn url_fetch_failure() {
    let url = b"http://example.org/never";
    let body = png(&solid(3, 3));
    for download in [
        Download::Failed,
        Download::NotAttempted,
        Download::Answered { success: false, body: body.clone() },
    ] {
        let r = get_image_from_type_and_bytes(&ImageUploadType::Url, url, &download);
        assert_eq!(r.err(), Some(ImageError::FetchFailed));
        let built =
            build_image_for_foto(form(url.to_vec(), ImageUploadType::Url), "ada", &download, None);
        assert_eq!(built.err(), Some(ImageError::FetchFailed));
    }
    let r = get_image_from_type_and_bytes(
        &ImageUploadType::Url,
        &[b'h', 0xff],
        &Download::Answered { success: true, body },
    );
    assert_eq!(r.err(), Some(ImageError::EncodingMismatch));
    let r = get_image_from_type_and_bytes(
        &ImageUploadType::Url,
        url,
        &Download::Answered { success: true, body: b"<html>".to_vec() },
    );
    assert_eq!(r.err(), Some(ImageError::UnsupportedFormat));
}

#[test]
fn fetch_target_is_the_address_of_an_upload_by_address() {
    assert_eq!(
        fetch_target(&ImageUploadType::Url, b"http://example.org/x"),
        Ok(Some("http://example.org/x".to_string()))
    );
    assert_eq!(fetch_target(&ImageUploadType::Url, "hé".as_bytes()), Ok(Some("hé".to_string())));
    assert_eq!(fetch_target(&ImageUploadType::Url, &[0xc3]), Err(ImageError::EncodingMismatch));
    assert_eq!(fetch_target(&ImageUploadType::File, &[0xc3]), Ok(None));
    assert_eq!(fetch_target(&ImageUploadType::Base64, b"http://example.org/x"), Ok(None));
}

#[test]
fn built_image_has_what_the_form_says() {
    let bytes = png(&solid(21, 13));
    let before = chrono::Utc::now().timestamp();
    let built = build_image_for_foto(
        form(bytes.clone(), ImageUploadType::File),
        "ada",
        &Download::NotAttempted,
        Some("bucket"),
    )
    .unwrap();
    let after = chrono::Utc::now().timestamp();
    let image = &built.image;
    assert_eq!(image.id.chars().count(), 11);
    assert!(image.id.chars().all(|c| c.is_ascii_alphanumeric() || c == '_' || c == '-'));
    assert_eq!(image.image_url, "");
    assert_eq!(image.hash, [0u8; 8]);
    assert_eq!(image.username, "ada");
    assert_eq!(image.title, "a title");
    assert_eq!(image.description, "a description");
    assert_eq!(image.image_type, "image/png");
    assert!(image.tags.is_empty());
    assert_eq!((image.width, image.height), (21, 13));
    assert!(before <= image.datetime && image.datetime <= after);
    let put = built.upload.as_ref().unwrap();
    assert_eq!(put.bucket, "bucket");
    assert_eq!(put.key, format!("{}.png", image.id));
    assert_eq!(put.body, bytes);

    let id = image.id.clone();
    let stored = built.finish(true);
    assert_eq!(stored.image_url, format!("https://bucket.s3.amazonaws.com/{}.png", id));
    assert_eq!(stored.id, id);
    assert_eq!(stored.hash, [0u8; 8]);
}

#[test]
fn built_image_without_a_bucket_has_no_upload() {
    let text = base64::encode(png(&rising(30, 30)));
    let built = build_image_for_foto(
        form(text.into_bytes(), ImageUploadType::Base64),
        "bob",
        &Download::NotAttempted,
        None,
    )
    .unwrap();
    assert!(built.upload.is_none());
    assert_eq!(built.image.hash, [0xffu8; 8]);
    assert_eq!((built.image.width, built.image.height), (30, 30));
    let image = built.finish(true);
    assert_eq!(image.image_url, "");
}

#[test]
fn built_images_get_ids_of_their_own() {
    let bytes = png(&solid(2, 2));
    let a = build_image_for_foto(
        form(bytes.clone(), ImageUploadType::File),
        "ada",
        &Download::NotAttempted,
        None,
    )
    .unwrap();
    let b = build_image_for_foto(
        form(bytes, ImageUploadType::File),
        "ada",
        &Download::NotAttempted,
        None,
    )
    .unwrap();
    assert_ne!(a.image.id, b.image.id);
}

#[test]
fn assembled_image_uploads_the_decoded_file() {
    let built = assemble_image(
        form(b"text".to_vec(), ImageUploadType::Base64),
        "ada",
        "abcdefghijk".to_string(),
        [1, 2, 3, 4, 5, 6, 7, 8],
        (640, 480),
        Some("jpg".to_string()),
        Some(vec![9, 9, 9]),
        77,
        Some("b"),
    );
    assert_eq!(built.image.id, "abcdefghijk");
    assert_eq!(built.image.hash, [1, 2, 3, 4, 5, 6, 7, 8]);
    assert_eq!((built.image.width, built.image.height), (640, 480));
    assert_eq!(built.image.datetime, 77);
    assert_eq!(built.image.username, "ada");
    assert_eq!(built.image.image_url, "");
    let put = built.upload.as_ref().unwrap();
    assert_eq!(put.key, "abcdefghijk.jpg");
    assert_eq!(put.body, vec![9, 9, 9]);
    let unstored = assemble_image(
        form(b"raw".to_vec(), ImageUploadType::File),
        "ada",
        "id".to_string(),
        [0; 8],
        (1, 1),
        None,
        None,
        0,
        Some("b"),
    );
    let put = unstored.upload.as_ref().unwrap();
    assert_eq!(put.key, "given.bin");
    assert_eq!(put.body, b"raw".to_vec());
    assert_eq!(unstored.finish(false).image_url, "");
}

#[test]
fn image_without_pixels_has_no_fingerprint() {
    assert_eq!(image_fingerprint(&DynamicImage::new_rgb8(0, 0)), Err(ImageError::InvalidFingerprint));
    assert_eq!(image_fingerprint(&DynamicImage::new_rgb8(0, 5)), Err(ImageError::InvalidFingerprint));
    assert_eq!(image_fingerprint(&DynamicImage::new_luma8(5, 0)), Err(ImageError::InvalidFingerprint));
    assert_eq!(image_fingerprint(&DynamicImage::new_rgb8(1, 1)), Ok([0u8; 8]));
    assert_eq!(image_fingerprint(&solid(7, 3)), Ok([0u8; 8]));
    assert_eq!(image_fingerprint(&rising(100, 3)), Ok([0xffu8; 8]));
}
