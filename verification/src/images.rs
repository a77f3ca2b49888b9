//! Image records and the forms they are built from.

use vstd::prelude::*;
use vstd::string::*;
use vstd::utf8::{decode_utf8, valid_utf8};
use img_hash::image::{DynamicImage, ImageFormat};
use crate::clock::utc_timestamp;
use crate::database::{Database, DatabaseView};
use crate::fingerprint::FINGERPRINT_BYTES;
use crate::text::{
    base64_decode, base64_decoding, from_utf8, lowercase, same_text, to_lowercase,
};

verus! {

/// Why an image could not be taken in or found.
#[derive(Debug, Clone, Copy, PartialEq, Eq, Structural)]
pub enum ImageError {
    /// The bytes are no image of a known format.
    UnsupportedFormat,
    /// The address gave no image: the request failed or was answered with
    /// a status other than success.
    FetchFailed,
    /// The bytes are not what the upload type says: no valid UTF-8, or no
    /// valid base64.
    EncodingMismatch,
    /// The image gives no fingerprint: it has no pixels, or its hash has not
    /// the length of a fingerprint.
    InvalidFingerprint,
    /// The store could not keep the image.
    StoreError,
    /// No image has the id.
    NotFound,
}

/// What came of asking an address for an image.
pub enum Download {
    /// The address was not asked.
    NotAttempted,
    /// The request failed before an answer came.
    Failed,
    /// An answer came.
    Answered { success: bool, body: Vec<u8> },
}

/// A decoded image, as the `image` crate holds it.
#[verifier::external_type_specification]
#[verifier::external_body]
pub struct ExDynamicImage(DynamicImage);

/// The format of an image file, as the `image` crate names it.
#[verifier::external_type_specification]
#[verifier::external_body]
pub struct ExImageFormat(ImageFormat);

/// How the bytes of an uploaded image are encoded.
#[derive(Debug, Clone, Copy, PartialEq, Eq, Structural)]
pub enum ImageUploadType {
    /// Standard base64 text of an image file.
    Base64,
    /// The address of an image file.
    Url,
    /// An image file as it is.
    File,
}

/// The text that names an upload type was none of the known ones.
#[derive(Debug, Clone, Copy, PartialEq, Eq, Structural)]
pub enum ImageUploadTypeError {
    ImageUploadTypeParseError,
}

/// What an upload request carries for one image.
pub struct ImageForm {
    pub image: Vec<u8>,
    pub image_type: ImageUploadType,
    pub title: String,
    pub description: String,
    pub mime: String,
    pub image_name: String,
}

/// The form of an upload, as mathematical values.
pub struct ImageFormView {
    pub image: Seq<u8>,
    pub image_type: ImageUploadType,
    pub title: Seq<char>,
    pub description: Seq<char>,
    pub mime: Seq<char>,
    pub image_name: Seq<char>,
}

impl View for ImageForm {
    type V = ImageFormView;

    open spec fn view(&self) -> ImageFormView {
        ImageFormView {
            image: self.image@,
            image_type: self.image_type,
            title: self.title@,
            description: self.description@,
            mime: self.mime@,
            image_name: self.image_name@,
        }
    }
}

/// One stored image.
#[derive(Debug)]
pub struct Image {
    /// Unique among the images of a store.
    pub id: String,
    /// Where the file was put; empty when it was put nowhere.
    pub image_url: String,
    /// The image's fingerprint.
    pub hash: [u8; 8],
    pub username: String,
    pub title: String,
    pub tags: Vec<String>,
    pub description: String,
    /// The declared media type.
    pub image_type: String,
    pub width: u32,
    pub height: u32,
    /// Seconds since the epoch.
    pub datetime: i64,
}

/// What an [`Image`] holds, as mathematical values.
pub struct ImageView {
    pub id: Seq<char>,
    pub image_url: Seq<char>,
    pub hash: Seq<u8>,
    pub username: Seq<char>,
    pub title: Seq<char>,
    pub tags: Seq<Seq<char>>,
    pub description: Seq<char>,
    pub image_type: Seq<char>,
    pub width: u32,
    pub height: u32,
    pub datetime: i64,
}

impl View for Image {
    type V = ImageView;

    open spec fn view(&self) -> ImageView {
        ImageView {
            id: self.id@,
            image_url: self.image_url@,
            hash: self.hash@,
            username: self.username@,
            title: self.title@,
            tags: text_views(self.tags@),
            description: self.description@,
            image_type: self.image_type@,
            width: self.width,
            height: self.height,
            datetime: self.datetime,
        }
    }
}

/// The texts of a list of strings.
pub open spec fn text_views(texts: Seq<String>) -> Seq<Seq<char>> {
    Seq::new(texts.len(), |i: int| texts[i]@)
}

/// The views of a list of images.
pub open spec fn image_views(images: Seq<Image>) -> Seq<ImageView> {
    Seq::new(images.len(), |i: int| images[i]@)
}

/// Copies a list of strings.
pub fn copy_texts(texts: &Vec<String>) -> (copy: Vec<String>)
    ensures
        text_views(copy@) == text_views(texts@),
{
    let mut copy: Vec<String> = Vec::new();
    let mut i: usize = 0;
    while i < texts.len()
        invariant
            i <= texts.len(),
            copy.len() == i,
            forall|j: int| 0 <= j < i ==> copy[j]@ == texts[j]@,
        decreases texts.len() - i,
    {
        copy.push(texts[i].clone());
        i = i + 1;
    }
    assert(text_views(copy@) =~= text_views(texts@));
    copy
}

impl Image {
    /// A copy of this image.
    pub fn duplicate(&self) -> (copy: Image)
        ensures
            copy@ == self@,
    {
        Image {
            id: self.id.clone(),
            image_url: self.image_url.clone(),
            hash: self.hash,
            username: self.username.clone(),
            title: self.title.clone(),
            tags: copy_texts(&self.tags),
            description: self.description.clone(),
            image_type: self.image_type.clone(),
            width: self.width,
            height: self.height,
            datetime: self.datetime,
        }
    }
}

impl Clone for Image {
    fn clone(&self) -> (copy: Image)
        ensures
            copy@ == self@,
    {
        self.duplicate()
    }
}

/// Copies a list of images.
pub fn copy_images(images: &Vec<Image>) -> (copy: Vec<Image>)
    ensures
        image_views(copy@) == image_views(images@),
{
    let mut copy: Vec<Image> = Vec::new();
    let mut i: usize = 0;
    while i < images.len()
        invariant
            i <= images.len(),
            copy.len() == i,
            forall|j: int| 0 <= j < i ==> copy[j]@ == images[j]@,
        decreases images.len() - i,
    {
        copy.push(images[i].duplicate());
        i = i + 1;
    }
    assert(image_views(copy@) =~= image_views(images@));
    copy
}

/// The image that `image::load_from_memory` decodes from the bytes of a
/// file; `None` where it refuses them.
pub uninterp spec fn decoded_image(bytes: Seq<u8>) -> Option<DynamicImage>;

/// The format that `image::guess_format` takes the bytes of a file for;
/// `None` where it knows none.
pub uninterp spec fn guessed_format(bytes: Seq<u8>) -> Option<ImageFormat>;

/// The hash that a `Hasher` of `img_hash` with the default configuration
/// gives an image, as this build of the library computes it.
pub uninterp spec fn image_hash(image: DynamicImage) -> Seq<u8>;

/// Width and height of an image, in pixels.
pub uninterp spec fn image_dimensions(image: DynamicImage) -> (u32, u32);

/// The first of the file name extensions of a format; `None` where it has
/// none.
pub uninterp spec fn format_extension(format: ImageFormat) -> Option<Seq<char>>;

/// Calls `image::load_from_memory`: whether the bytes decode, and the image
/// that comes out, are functions of the bytes alone.
#[verifier::external_body]
pub(crate) fn load_from_memory(bytes: &[u8]) -> (image: Option<DynamicImage>)
    ensures
        image == decoded_image(bytes@),
{
    img_hash::image::load_from_memory(bytes).ok()
}

/// Calls `image::guess_format`: the format is a function of the bytes
/// alone.
#[verifier::external_body]
pub(crate) fn guess_format(bytes: &[u8]) -> (format: Option<ImageFormat>)
    ensures
        format == guessed_format(bytes@),
{
    img_hash::image::guess_format(bytes).ok()
}

/// Whether an image has pixels. The hasher resizes the image, which fails
/// on an image without pixels.
pub open spec fn has_pixels(image: DynamicImage) -> bool {
    image_dimensions(image).0 > 0 && image_dimensions(image).1 > 0
}

/// The hash of an image: what `Hasher::hash_image` of `img_hash` computes
/// with the default configuration. It is a function of the image alone, so
/// two calls on one image give the same bytes.
#[verifier::external_body]
pub fn get_image_hash(image: &DynamicImage) -> (hash: Vec<u8>)
    requires
        has_pixels(*image),
    ensures
        hash@ == image_hash(*image),
{
    let hasher = img_hash::HasherConfig::new().to_hasher();
    let hash = hasher.hash_image(image);
    hash.as_bytes().to_vec()
}

/// Calls `GenericImageView::dimensions` on the image: its width and its
/// height, a function of the image alone.
#[verifier::external_body]
pub(crate) fn dimensions(image: &DynamicImage) -> (size: (u32, u32))
    ensures
        size == image_dimensions(*image),
{
    img_hash::image::GenericImageView::dimensions(image)
}

/// Calls `ImageFormat::extensions_str` and takes the first extension: a
/// function of the format alone.
#[verifier::external_body]
pub(crate) fn first_extension(format: ImageFormat) -> (extension: Option<String>)
    ensures
        extension is Some == format_extension(format) is Some,
        extension matches Some(e) ==> Some(e@) == format_extension(format),
{
    format.extensions_str().get(0).map(|e| e.to_string())
}

/// The upload type that a text in lower case names.
pub open spec fn upload_type_named(lower: Seq<char>) -> Option<ImageUploadType> {
    if lower == seq!['b', 'a', 's', 'e', '6', '4'] {
        Some(ImageUploadType::Base64)
    } else if lower == seq!['u', 'r', 'l'] {
        Some(ImageUploadType::Url)
    } else if lower == seq!['f', 'i', 'l', 'e'] {
        Some(ImageUploadType::File)
    } else {
        None
    }
}

impl ImageUploadType {
    /// The upload type that `lower` names: `base64`, `url` or `file`.
    pub fn from_lowercase(lower: &str) -> (parsed: Result<ImageUploadType, ImageUploadTypeError>)
        ensures
            parsed == match upload_type_named(lower@) {
                Some(t) => Ok::<ImageUploadType, ImageUploadTypeError>(t),
                None => Err(ImageUploadTypeError::ImageUploadTypeParseError),
            },
    {
        proof {
            reveal_strlit("base64");
            reveal_strlit("url");
            reveal_strlit("file");
            assert("base64"@ =~= seq!['b', 'a', 's', 'e', '6', '4']);
            assert("url"@ =~= seq!['u', 'r', 'l']);
            assert("file"@ =~= seq!['f', 'i', 'l', 'e']);
        }
        if same_text(lower, "base64") {
            Ok(ImageUploadType::Base64)
        } else if same_text(lower, "url") {
            Ok(ImageUploadType::Url)
        } else if same_text(lower, "file") {
            Ok(ImageUploadType::File)
        } else {
            Err(ImageUploadTypeError::ImageUploadTypeParseError)
        }
    }

    /// The upload type that `s` names, whatever the case of its letters.
    pub fn parse(s: &str) -> (parsed: Result<ImageUploadType, ImageUploadTypeError>)
        ensures
            parsed == match upload_type_named(lowercase(s@)) {
                Some(t) => Ok::<ImageUploadType, ImageUploadTypeError>(t),
                None => Err(ImageUploadTypeError::ImageUploadTypeParseError),
            },
    {
        let lower = to_lowercase(s);
        ImageUploadType::from_lowercase(lower.as_str())
    }
}

impl std::str::FromStr for ImageUploadType {
    type Err = ImageUploadTypeError;

    /// The upload type that `s` names, whatever the case of its letters:
    /// `base64`, `url` or `file`; the error for every other text.
    fn from_str(s: &str) -> (parsed: Result<ImageUploadType, ImageUploadTypeError>)
        ensures
            parsed == match upload_type_named(lowercase(s@)) {
                Some(t) => Ok::<ImageUploadType, ImageUploadTypeError>(t),
                None => Err(ImageUploadTypeError::ImageUploadTypeParseError),
            },
    {
        ImageUploadType::parse(s)
    }
}

/// The image and the format that a file's bytes give; the error where the
/// file is no image of a known format.
pub open spec fn loaded(bytes: Seq<u8>) -> Result<(DynamicImage, ImageFormat), ImageError> {
    match (decoded_image(bytes), guessed_format(bytes)) {
        (Some(image), Some(format)) => Ok((image, format)),
        _ => Err(ImageError::UnsupportedFormat),
    }
}

/// What an upload of the type `image_type` gives: the image, its format,
/// and the file's bytes where they are not the uploaded bytes themselves.
pub open spec fn image_from_type_and_bytes(
    image_type: ImageUploadType,
    image_bytes: Seq<u8>,
    download: Download,
) -> Result<(DynamicImage, ImageFormat, Option<Seq<u8>>), ImageError> {
    match image_type {
        ImageUploadType::Base64 => if !valid_utf8(image_bytes) {
            Err(ImageError::EncodingMismatch)
        } else {
            match base64_decoding(decode_utf8(image_bytes)) {
                None => Err(ImageError::EncodingMismatch),
                Some(file) => match loaded(file) {
                    Ok((image, format)) => Ok((image, format, Some(file))),
                    Err(e) => Err(e),
                },
            }
        },
        ImageUploadType::Url => if !valid_utf8(image_bytes) {
            Err(ImageError::EncodingMismatch)
        } else {
            match download {
                Download::Answered { success: true, body } => match loaded(body@) {
                    Ok((image, format)) => Ok((image, format, Some(body@))),
                    Err(e) => Err(e),
                },
                _ => Err(ImageError::FetchFailed),
            }
        },
        ImageUploadType::File => match loaded(image_bytes) {
            Ok((image, format)) => Ok((image, format, None)),
            Err(e) => Err(e),
        },
    }
}

/// The address to ask for the image of an upload: that of an upload by
/// address, whose bytes must be valid UTF-8; none for the other types.
pub fn fetch_target(image_type: &ImageUploadType, image_bytes: &[u8]) -> (target: Result<
    Option<String>,
    ImageError,
>)
    ensures
        target matches Ok(Some(url)) ==> *image_type == ImageUploadType::Url && valid_utf8(
            image_bytes@,
        ) && url@ == decode_utf8(image_bytes@),
        target matches Ok(None) ==> *image_type != ImageUploadType::Url,
        target matches Err(e) ==> e == ImageError::EncodingMismatch && *image_type
            == ImageUploadType::Url && !valid_utf8(image_bytes@),
{
    match image_type {
        ImageUploadType::Url => match from_utf8(image_bytes) {
            Some(url) => Ok(Some(url.to_owned())),
            None => Err(ImageError::EncodingMismatch),
        },
        _ => Ok(None),
    }
}

/// Puts together what decoding a file gave.
pub fn finish_load(
    image: Option<DynamicImage>,
    format: Option<ImageFormat>,
    file: Option<Vec<u8>>,
) -> (done: Result<(DynamicImage, ImageFormat, Option<Vec<u8>>), ImageError>)
    ensures
        match (image, format) {
            (Some(i), Some(f)) => done == Ok::<
                (DynamicImage, ImageFormat, Option<Vec<u8>>),
                ImageError,
            >((i, f, file)),
            _ => done == Err::<(DynamicImage, ImageFormat, Option<Vec<u8>>), ImageError>(
                ImageError::UnsupportedFormat,
            ),
        },
{
    match image {
        Some(i) => match format {
            Some(f) => Ok((i, f, file)),
            None => Err(ImageError::UnsupportedFormat),
        },
        None => Err(ImageError::UnsupportedFormat),
    }
}

/// The bytes of an optional file.
pub open spec fn file_view(file: Option<Vec<u8>>) -> Option<Seq<u8>> {
    match file {
        Some(f) => Some(f@),
        None => None,
    }
}

/// Decodes the image of an upload. For an upload by address, `download`
/// says what came of asking the address; the other types do not look at it.
pub fn get_image_from_type_and_bytes(
    image_type: &ImageUploadType,
    image_bytes: &[u8],
    download: &Download,
) -> (done: Result<(DynamicImage, ImageFormat, Option<Vec<u8>>), ImageError>)
    ensures
        match image_from_type_and_bytes(*image_type, image_bytes@, *download) {
            Ok((image, format, file)) => done matches Ok((i, f, b)) && i == image && f == format
                && file_view(b) == file,
            Err(e) => done matches Err(d) && d == e,
        },
{
    match image_type {
        ImageUploadType::Base64 => {
            let text = match from_utf8(image_bytes) {
                Some(text) => text,
                None => { return Err(ImageError::EncodingMismatch); },
            };
            let decoded_image = match base64_decode(text) {
                Some(file) => file,
                None => { return Err(ImageError::EncodingMismatch); },
            };
            let image = load_from_memory(decoded_image.as_slice());
            let format = guess_format(decoded_image.as_slice());
            finish_load(image, format, Some(decoded_image))
        },
        ImageUploadType::Url => {
            if from_utf8(image_bytes).is_none() {
                return Err(ImageError::EncodingMismatch);
            }
            match download {
                Download::Answered { success, body } => {
                    if *success {
                        let image = load_from_memory(body.as_slice());
                        let format = guess_format(body.as_slice());
                        finish_load(image, format, Some(body.clone()))
                    } else {
                        Err(ImageError::FetchFailed)
                    }
                },
                _ => Err(ImageError::FetchFailed),
            }
        },
        ImageUploadType::File => {
            let image = load_from_memory(image_bytes);
            let format = guess_format(image_bytes);
            finish_load(image, format, None)
        },
    }
}

/// Whether `c` is one of the 64 characters that ids are made of.
pub open spec fn is_id_char(c: char) -> bool {
    ||| c == '_'
    ||| c == '-'
    ||| '0' as u32 <= c as u32 <= '9' as u32
    ||| 'a' as u32 <= c as u32 <= 'z' as u32
    ||| 'A' as u32 <= c as u32 <= 'Z' as u32
}

/// Whether `id` has the form of a generated id: 11 characters that are safe
/// in an address.
pub open spec fn is_generated_id(id: Seq<char>) -> bool {
    &&& id.len() == ID_LENGTH
    &&& forall|i: int| 0 <= i < id.len() ==> is_id_char(#[trigger] id[i])
}

/// The number of characters of a generated id.
pub const ID_LENGTH: usize = 11;

/// How often a new id is drawn for an image whose id is taken, before one
/// is made up that no image can have.
pub const ID_ATTEMPTS: u64 = 1024;

/// Calls `nanoid::format` with the crate's default random source and its
/// alphabet of 64 characters that are safe in an address, for 11
/// characters. The id is random: only its length and its alphabet are known.
#[verifier::external_body]
pub(crate) fn generate_id() -> (id: String)
    ensures
        is_generated_id(id@),
{
    nanoid::format(nanoid::rngs::default, &nanoid::alphabet::SAFE, 11)
}

/// The fingerprint that the bytes of a hash are, if they are as many as a
/// fingerprint has.
pub fn fingerprint_from_bytes(hash: &Vec<u8>) -> (fingerprint: Option<[u8; 8]>)
    ensures
        fingerprint is Some == (hash@.len() == FINGERPRINT_BYTES),
        fingerprint matches Some(f) ==> f@ == hash@,
{
    if hash.len() == 8 {
        let f: [u8; 8] = [hash[0], hash[1], hash[2], hash[3], hash[4], hash[5], hash[6], hash[7]];
        assert(f@ =~= hash@);
        Some(f)
    } else {
        None
    }
}

/// The fingerprint of an image: its hash, if the image has pixels and the
/// hash is as long as a fingerprint.
pub open spec fn fingerprint_of(image: DynamicImage) -> Option<Seq<u8>> {
    if has_pixels(image) && image_hash(image).len() == FINGERPRINT_BYTES {
        Some(image_hash(image))
    } else {
        None
    }
}

/// Takes the fingerprint of an image. An image without pixels has none.
/// Two calls on one image give the same fingerprint.
pub fn image_fingerprint(image: &DynamicImage) -> (fingerprint: Result<[u8; 8], ImageError>)
    ensures
        match fingerprint_of(*image) {
            Some(f) => fingerprint matches Ok(h) && h@ == f,
            None => fingerprint == Err::<[u8; 8], ImageError>(ImageError::InvalidFingerprint),
        },
{
    let (width, height) = dimensions(image);
    if width == 0 || height == 0 {
        return Err(ImageError::InvalidFingerprint);
    }
    let hash = get_image_hash(image);
    match fingerprint_from_bytes(&hash) {
        Some(f) => Ok(f),
        None => Err(ImageError::InvalidFingerprint),
    }
}

/// What is to be put into the file store: the bytes of a file under a key
/// in a bucket.
pub struct PutObject {
    pub bucket: String,
    pub key: String,
    pub body: Vec<u8>,
}

/// What a [`PutObject`] holds, as mathematical values.
pub struct PutObjectView {
    pub bucket: Seq<char>,
    pub key: Seq<char>,
    pub body: Seq<u8>,
}

impl View for PutObject {
    type V = PutObjectView;

    open spec fn view(&self) -> PutObjectView {
        PutObjectView { bucket: self.bucket@, key: self.key@, body: self.body@ }
    }
}

/// An image that is ready for the store, and what is to be put into the
/// file store for it, if a bucket is configured.
pub struct BuiltImage {
    pub image: Image,
    pub upload: Option<PutObject>,
}

/// What a [`BuiltImage`] holds, as mathematical values.
pub struct BuiltImageView {
    pub image: ImageView,
    pub upload: Option<PutObjectView>,
}

impl View for BuiltImage {
    type V = BuiltImageView;

    open spec fn view(&self) -> BuiltImageView {
        BuiltImageView {
            image: self.image@,
            upload: match self.upload {
                Some(put) => Some(put@),
                None => None,
            },
        }
    }
}

/// The name of an image's file: the id, a dot and the extension; the name
/// that the form gave where the format has no extension.
pub open spec fn file_name(id: Seq<char>, extension: Option<Seq<char>>, given: Seq<char>) -> Seq<
    char,
> {
    match extension {
        Some(e) => id + seq!['.'] + e,
        None => given,
    }
}

/// The address of a file that was put into a bucket.
pub open spec fn object_url(bucket: Seq<char>, key: Seq<char>) -> Seq<char> {
    "https://"@ + bucket + ".s3.amazonaws.com/"@ + key
}

/// The image that an upload becomes, and the file that goes with it.
pub open spec fn assembled(
    form: ImageFormView,
    username: Seq<char>,
    id: Seq<char>,
    hash: Seq<u8>,
    size: (u32, u32),
    extension: Option<Seq<char>>,
    file: Option<Seq<u8>>,
    now: i64,
    bucket: Option<Seq<char>>,
) -> BuiltImageView {
    BuiltImageView {
        image: ImageView {
            id,
            image_url: Seq::empty(),
            hash,
            username,
            title: form.title,
            tags: Seq::empty(),
            description: form.description,
            image_type: form.mime,
            width: size.0,
            height: size.1,
            datetime: now,
        },
        upload: match bucket {
            Some(b) => Some(
                PutObjectView {
                    bucket: b,
                    key: file_name(id, extension, form.image_name),
                    body: match file {
                        Some(f) => f,
                        None => form.image,
                    },
                },
            ),
            None => None,
        },
    }
}

/// The view of an optional text.
pub open spec fn text_view(text: Option<String>) -> Option<Seq<char>> {
    match text {
        Some(t) => Some(t@),
        None => None,
    }
}

/// The view of an optional borrowed text.
pub open spec fn str_view(text: Option<&str>) -> Option<Seq<char>> {
    match text {
        Some(t) => Some(t@),
        None => None,
    }
}

/// The view of the outcome of building an image.
pub open spec fn built_view(built: Result<BuiltImage, ImageError>) -> Result<
    BuiltImageView,
    ImageError,
> {
    match built {
        Ok(b) => Ok(b@),
        Err(e) => Err(e),
    }
}

/// Makes the image of an upload from the form, the owner's name and what
/// decoding gave, under the id `id` and with the time `now`. The image has
/// no tags and no address yet. With a bucket, the file is to be put there
/// under the image's file name: the decoded or downloaded bytes where
/// there are any, else the uploaded bytes.
pub fn assemble_image(
    image_form: ImageForm,
    username: &str,
    id: String,
    hash: [u8; 8],
    size: (u32, u32),
    extension: Option<String>,
    file: Option<Vec<u8>>,
    now: i64,
    bucket: Option<&str>,
) -> (built: BuiltImage)
    ensures
        built@ == assembled(
            image_form@,
            username@,
            id@,
            hash@,
            size,
            text_view(extension),
            file_view(file),
            now,
            str_view(bucket),
        ),
{
    let upload = match bucket {
        Some(b) => {
            let key = match extension {
                Some(e) => {
                    proof {
                        reveal_strlit(".");
                    }
                    let key = id.clone().concat(".").concat(e.as_str());
                    assert(key@ =~= id@ + seq!['.'] + e@);
                    key
                },
                None => image_form.image_name,
            };
            let body = match file {
                Some(f) => f,
                None => image_form.image,
            };
            Some(PutObject { bucket: b.to_owned(), key, body })
        },
        None => None,
    };
    let tags: Vec<String> = Vec::new();
    assert(text_views(tags@) =~= Seq::empty());
    let image = Image {
        id,
        image_url: String::new(),
        hash,
        username: username.to_owned(),
        tags,
        title: image_form.title,
        description: image_form.description,
        image_type: image_form.mime,
        width: size.0,
        height: size.1,
        datetime: now,
    };
    BuiltImage { image, upload }
}

impl BuiltImage {
    /// The image as it goes into the store: with the address of its file
    /// where the file was put into the bucket, without an address where it
    /// was not, or where no bucket is configured.
    pub fn finish(self, stored: bool) -> (image: Image)
        ensures
            image@ == finished(self@, stored),
    {
        let mut image = self.image;
        match self.upload {
            Some(put) => {
                if stored {
                    let url = "https://".to_owned().concat(put.bucket.as_str()).concat(
                        ".s3.amazonaws.com/",
                    ).concat(put.key.as_str());
                    image.image_url = url;
                }
            },
            None => {},
        }
        image
    }
}

/// Whether building the image of an upload ended as the form says: with the
/// decoder's error, with the error of an image that gives no fingerprint,
/// or with the assembled image under a generated id.
pub open spec fn build_outcome(
    form: ImageFormView,
    username: Seq<char>,
    download: Download,
    bucket: Option<Seq<char>>,
    built: Result<BuiltImageView, ImageError>,
) -> bool {
    match image_from_type_and_bytes(form.image_type, form.image, download) {
        Err(e) => built == Err::<BuiltImageView, ImageError>(e),
        Ok((image, format, file)) => match fingerprint_of(image) {
            None => built == Err::<BuiltImageView, ImageError>(ImageError::InvalidFingerprint),
            Some(hash) => built matches Ok(b) && is_generated_id(b.image.id) && b == assembled(
                form,
                username,
                b.image.id,
                hash,
                image_dimensions(image),
                format_extension(format),
                file,
                b.image.datetime,
                bucket,
            ),
        },
    }
}

/// Builds the image of an upload: decodes it, takes its fingerprint and
/// its size, draws an id for it, and stamps it with the time. An upload
/// that does not decode gives the decoder's error and nothing else happens.
/// The id and the time are those of the call; everything else is fixed by
/// the form, the name and the bucket.
pub fn build_image_for_foto(
    image_form: ImageForm,
    username: &str,
    download: &Download,
    bucket: Option<&str>,
) -> (built: Result<BuiltImage, ImageError>)
    ensures
        build_outcome(image_form@, username@, *download, str_view(bucket), built_view(built)),
{
    let image_result = get_image_from_type_and_bytes(
        &image_form.image_type,
        image_form.image.as_slice(),
        download,
    );
    match image_result {
        Ok((image, image_type, bytes)) => {
            let hash = match image_fingerprint(&image) {
                Ok(hash) => hash,
                Err(err) => { return Err(err); },
            };
            let id = generate_id();
            let extension = first_extension(image_type);
            let size = dimensions(&image);
            let now = utc_timestamp();
            Ok(assemble_image(image_form, username, id, hash, size, extension, bytes, now, bucket))
        },
        Err(err) => Err(err),
    }
}

/// The image of a built upload as it goes into the store.
pub open spec fn finished(built: BuiltImageView, stored: bool) -> ImageView {
    match built.upload {
        Some(put) if stored => ImageView {
            image_url: object_url(put.bucket, put.key),
            ..built.image
        },
        _ => built.image,
    }
}

/// The bucket of a fingerprint after one more image of that fingerprint
/// came: what the bucket held, and the image behind it. A fingerprint
/// without a bucket gets one that holds the image alone.
pub fn append_to_bucket(bucket: Option<Vec<Image>>, image: Image) -> (appended: Vec<Image>)
    ensures
        image_views(appended@) == match bucket {
            Some(held) => image_views(held@).push(image@),
            None => seq![image@],
        },
{
    let mut images = match bucket {
        Some(images) => images,
        None => Vec::new(),
    };
    let ghost held = images@;
    images.push(image);
    proof {
        assert(image_views(images@) =~= image_views(held).push(image@));
        if bucket is None {
            assert(image_views(images@) =~= seq![image@]);
        }
    }
    images
}

/// The ids that stand for choice, in their order: the proposed one, then
/// the drawn ones.
pub open spec fn candidates(proposed: Seq<char>, drawn: Seq<Seq<char>>) -> Seq<Seq<char>> {
    seq![proposed] + drawn
}

/// Whether the candidate at `i` is the first that no image has.
pub open spec fn first_free(db: DatabaseView, ids: Seq<Seq<char>>, i: int) -> bool {
    &&& 0 <= i < ids.len()
    &&& !db.has_id(ids[i])
    &&& forall|j: int| 0 <= j < i ==> db.has_id(#[trigger] ids[j])
}

/// The id that is chosen: the first of the candidates that no image has;
/// the store's spare id where every candidate is taken.
pub open spec fn chosen_id(db: DatabaseView, proposed: Seq<char>, drawn: Seq<Seq<char>>) -> Seq<
    char,
> {
    let ids = candidates(proposed, drawn);
    if exists|i: int| first_free(db, ids, i) {
        ids[choose|i: int| first_free(db, ids, i)]
    } else {
        db.spare_id()
    }
}

/// The first free candidate is the chosen id.
pub proof fn lemma_chosen_first_free(
    db: DatabaseView,
    proposed: Seq<char>,
    drawn: Seq<Seq<char>>,
    i: int,
)
    requires
        first_free(db, candidates(proposed, drawn), i),
    ensures
        chosen_id(db, proposed, drawn) == candidates(proposed, drawn)[i],
{
    let ids = candidates(proposed, drawn);
    let k = choose|k: int| first_free(db, ids, k);
    assert(first_free(db, ids, k));
    if k < i {
        assert(db.has_id(ids[k]));
    } else if i < k {
        assert(db.has_id(ids[i]));
    }
}

/// Where every candidate is taken, the chosen id is the spare id.
pub proof fn lemma_chosen_spare(db: DatabaseView, proposed: Seq<char>, drawn: Seq<Seq<char>>)
    requires
        forall|j: int|
            0 <= j < candidates(proposed, drawn).len() ==> db.has_id(
                #[trigger] candidates(proposed, drawn)[j],
            ),
    ensures
        chosen_id(db, proposed, drawn) == db.spare_id(),
{
    let ids = candidates(proposed, drawn);
    assert forall|i: int| !first_free(db, ids, i) by {
        if 0 <= i < ids.len() {
            assert(db.has_id(ids[i]));
        }
    }
}

/// The chosen id is an id that no image has.
pub proof fn lemma_chosen_id_is_free(db: DatabaseView, proposed: Seq<char>, drawn: Seq<Seq<char>>)
    ensures
        !db.has_id(chosen_id(db, proposed, drawn)),
        !db.has_id(proposed) ==> chosen_id(db, proposed, drawn) == proposed,
{
    let ids = candidates(proposed, drawn);
    if exists|i: int| first_free(db, ids, i) {
        let k = choose|k: int| first_free(db, ids, k);
        assert(first_free(db, ids, k));
    } else {
        db.lemma_spare_id_is_free();
    }
    if !db.has_id(proposed) {
        assert(first_free(db, ids, 0));
        lemma_chosen_first_free(db, proposed, drawn, 0);
    }
}

/// Chooses the id for an image among the proposed id and the ids that were
/// drawn for it, in that order: the first that no image of the store has.
/// Where all are taken, the store's spare id is chosen.
pub fn choose_id(db: &Database, proposed: String, drawn: Vec<String>) -> (id: String)
    requires
        db@.wf(),
    ensures
        id@ == chosen_id(db@, proposed@, text_views(drawn@)),
        !db@.has_id(id@),
{
    proof {
        lemma_chosen_id_is_free(db@, proposed@, text_views(drawn@));
    }
    let ghost ids = candidates(proposed@, text_views(drawn@));
    if !db.contains_key(&proposed) {
        proof {
            assert(first_free(db@, ids, 0));
            lemma_chosen_first_free(db@, proposed@, text_views(drawn@), 0);
        }
        return proposed;
    }
    let mut i: usize = 0;
    while i < drawn.len()
        invariant
            i <= drawn.len(),
            db@.wf(),
            ids == candidates(proposed@, text_views(drawn@)),
            forall|j: int| 0 <= j <= i ==> db@.has_id(#[trigger] ids[j]),
        decreases drawn.len() - i,
    {
        assert(ids[i + 1] == drawn@[i as int]@);
        if !db.contains_key(&drawn[i]) {
            proof {
                assert(first_free(db@, ids, i + 1));
                lemma_chosen_first_free(db@, proposed@, text_views(drawn@), i + 1);
            }
            return drawn[i].clone();
        }
        i = i + 1;
    }
    proof {
        lemma_chosen_spare(db@, proposed@, text_views(drawn@));
    }
    db.spare_id()
}

/// Whether `drawn` are ids as they are drawn for a proposed id: each has
/// the form of a generated id, each was drawn because the candidate before
/// it was taken, and the drawing went on until a candidate was free or
/// [`ID_ATTEMPTS`] ids were drawn.
pub open spec fn drawn_for(db: DatabaseView, proposed: Seq<char>, drawn: Seq<Seq<char>>) -> bool {
    let ids = candidates(proposed, drawn);
    &&& drawn.len() <= ID_ATTEMPTS
    &&& forall|j: int| 0 <= j < drawn.len() ==> is_generated_id(#[trigger] drawn[j])
    &&& forall|j: int| 0 <= j < drawn.len() ==> db.has_id(#[trigger] ids[j])
    &&& drawn.len() < ID_ATTEMPTS ==> !db.has_id(ids.last())
}

/// An id for an image that is about to go into the store: the proposed one
/// if no image has it; else a newly drawn one, drawn again as long as it is
/// taken; and after [`ID_ATTEMPTS`] drawings that were all taken, the
/// store's spare id. The drawings are random; which id is chosen among
/// them is not.
pub fn unused_id(db: &Database, proposed: String) -> (id: String)
    requires
        db@.wf(),
    ensures
        !db@.has_id(id@),
        !db@.has_id(proposed@) ==> id@ == proposed@,
        id@ == proposed@ || is_generated_id(id@) || id@ == db@.spare_id(),
        exists|drawn: Seq<Seq<char>>| #[trigger]
            drawn_for(db@, proposed@, drawn) && id@ == chosen_id(db@, proposed@, drawn),
{
    let mut id = proposed.clone();
    let mut attempts: u64 = 0;
    let ghost mut drawn: Seq<Seq<char>> = Seq::empty();
    assert(candidates(proposed@, drawn) =~= seq![proposed@]);
    while attempts < ID_ATTEMPTS && db.contains_key(&id)
        invariant
            db@.wf(),
            attempts <= ID_ATTEMPTS,
            drawn.len() == attempts,
            candidates(proposed@, drawn).last() == id@,
            forall|j: int| 0 <= j < drawn.len() ==> is_generated_id(#[trigger] drawn[j]),
            forall|j: int|
                0 <= j < drawn.len() ==> db@.has_id(#[trigger] candidates(proposed@, drawn)[j]),
        decreases ID_ATTEMPTS - attempts,
    {
        let ghost before = drawn;
        id = generate_id();
        attempts = attempts + 1;
        proof {
            drawn = before.push(id@);
            assert(candidates(proposed@, drawn) =~= candidates(proposed@, before).push(id@));
            assert forall|j: int| 0 <= j < drawn.len() implies db@.has_id(
                #[trigger] candidates(proposed@, drawn)[j],
            ) by {
                if j < before.len() {
                    assert(candidates(proposed@, drawn)[j] == candidates(proposed@, before)[j]);
                } else {
                    assert(candidates(proposed@, drawn)[j] == candidates(proposed@, before).last());
                }
            }
        }
    }
    let ghost ids = candidates(proposed@, drawn);
    proof {
        lemma_chosen_id_is_free(db@, proposed@, drawn);
    }
    if db.contains_key(&id) {
        proof {
            assert forall|j: int| 0 <= j < ids.len() implies db@.has_id(#[trigger] ids[j]) by {
                if j == ids.len() - 1 {
                    assert(ids[j] == ids.last());
                }
            }
            lemma_chosen_spare(db@, proposed@, drawn);
            assert(drawn_for(db@, proposed@, drawn));
        }
        db.spare_id()
    } else {
        proof {
            assert(first_free(db@, ids, ids.len() - 1));
            lemma_chosen_first_free(db@, proposed@, drawn, ids.len() - 1);
            assert(drawn_for(db@, proposed@, drawn));
            if drawn.len() > 0 {
                assert(id@ == drawn[drawn.len() - 1]);
            }
        }
        id
    }
}

/// Whether `after` is the store `before` with `image` put into it under the
/// id `id`, which no image had: the image's own id if that was free.
pub open spec fn added_under(
    before: DatabaseView,
    image: ImageView,
    id: Seq<char>,
    after: DatabaseView,
) -> bool {
    &&& !before.has_id(id)
    &&& !before.has_id(image.id) ==> id == image.id
    &&& after == before.insert(ImageView { id, ..image })
}

/// Puts an image into the store and returns the id under which it stands:
/// its own if no image has it, else another that no image has. The image
/// goes under that id and to the end of the bucket of its fingerprint;
/// nothing else in the store changes. In memory this cannot fail.
pub fn add_image_to_db(image: Image, db: &mut Database) -> (added: Result<String, ImageError>)
    requires
        old(db)@.wf(),
    ensures
        final(db)@.wf(),
        added matches Ok(id) && added_under(old(db)@, image@, id@, final(db)@),
        added matches Ok(id) && exists|drawn: Seq<Seq<char>>| #[trigger]
            drawn_for(old(db)@, image@.id, drawn) && id@ == chosen_id(old(db)@, image@.id, drawn),
{
    let ghost before = db@;
    let mut record = image;
    let id = unused_id(db, record.id.clone());
    let ghost drawn = choose|drawn: Seq<Seq<char>>| #[trigger]
        drawn_for(before, image@.id, drawn) && id@ == chosen_id(before, image@.id, drawn);
    record.id = id.clone();
    db.insert(record);
    assert(drawn_for(before, image@.id, drawn) && id@ == chosen_id(before, image@.id, drawn));
    Ok(id)
}

} // verus!
