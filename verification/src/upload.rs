//! Uploads: from the fields of a form to an image in the store.

use vstd::prelude::*;
use vstd::string::*;
use crate::database::Database;
use crate::database::DatabaseView;
use vstd::utf8::{decode_utf8, valid_utf8};
use crate::images::{
    add_image_to_db, added_under, build_image_for_foto, build_outcome, fetch_target, finished,
    str_view, text_view, BuiltImage, BuiltImageView, Download, Image, ImageError, ImageForm,
    ImageFormView, ImageUploadType, ImageView,
};
use crate::response::{ApiResponse, ApiResponseView, Status};
use crate::text::{lowercase, same_text};

verus! {

/// What reading a multipart form can fail with, as `multer` says it.
#[verifier::external_type_specification]
#[verifier::external_body]
pub struct ExMultipartError(multer::Error);

/// Why an upload failed.
#[derive(Debug)]
pub enum UploadError {
    /// A field could not be read.
    MultipartError(multer::Error),
    /// The form has no image or no upload type.
    MissingFields,
    /// The image could not be built or stored: the form names no upload
    /// type, the bytes are not what the type says or are no image, the
    /// address gave none, or the store could not keep it.
    FailedToAdd(ImageError),
}

/// The boundary between the parts of a multipart form.
#[derive(Debug)]
pub struct Boundary {
    pub val: String,
}

/// The boundary that `multer::parse_boundary` reads from the value of a
/// content type header; `None` where it finds none.
pub uninterp spec fn boundary_of(content_type: Seq<char>) -> Option<Seq<char>>;

/// Calls `multer::parse_boundary`: whether a boundary is found, and which,
/// are functions of the header's value alone.
#[verifier::external_body]
pub(crate) fn parse_boundary(content_type: &str) -> (boundary: Option<String>)
    ensures
        text_view(boundary) == boundary_of(content_type@),
{
    multer::parse_boundary(content_type).ok()
}

impl Boundary {
    /// The boundary of a request, read from the value of its content type
    /// header; the status of a bad request where there is no header or no
    /// boundary in it.
    pub fn from_request(content_type: Option<&str>) -> (boundary: Result<Boundary, Status>)
        ensures
            match content_type {
                Some(c) => match boundary_of(c@) {
                    Some(val) => boundary matches Ok(b) && b.val@ == val,
                    None => boundary == Err::<Boundary, Status>(Status::bad_request()),
                },
                None => boundary == Err::<Boundary, Status>(Status::bad_request()),
            },
    {
        match content_type {
            Some(content_type) => match parse_boundary(content_type) {
                Some(val) => Ok(Boundary { val }),
                None => Err(Status::bad_request()),
            },
            None => Err(Status::bad_request()),
        }
    }
}

/// A list in the opposite order.
pub fn reversed<T>(list: Vec<T>) -> (turned: Vec<T>)
    ensures
        turned@.len() == list@.len(),
        forall|j: int| 0 <= j < turned@.len() ==> turned@[j] == list@[list@.len() - 1 - j],
{
    let ghost all = list@;
    let mut pending = list;
    let mut turned: Vec<T> = Vec::new();
    while pending.len() > 0
        invariant
            turned@.len() + pending@.len() == all.len(),
            forall|j: int| 0 <= j < pending@.len() ==> pending@[j] == all[j],
            forall|j: int| 0 <= j < turned@.len() ==> turned@[j] == all[all.len() - 1 - j],
        decreases pending@.len(),
    {
        let item = pending.pop().unwrap();
        turned.push(item);
    }
    turned
}

/// The fields of an upload form that are read.
#[derive(Debug, Clone, Copy, PartialEq, Eq, Structural)]
pub enum UploadFieldName {
    Image,
    Type,
    Title,
    Description,
    /// Any other field: it is passed over.
    Other,
}

/// Which field of an upload form a name stands for.
pub fn upload_field_named(name: &str) -> (field: UploadFieldName)
    ensures
        field == if name@ == "image"@ {
            UploadFieldName::Image
        } else if name@ == "type"@ {
            UploadFieldName::Type
        } else if name@ == "title"@ {
            UploadFieldName::Title
        } else if name@ == "description"@ {
            UploadFieldName::Description
        } else {
            UploadFieldName::Other
        },
{
    if same_text(name, "image") {
        UploadFieldName::Image
    } else if same_text(name, "type") {
        UploadFieldName::Type
    } else if same_text(name, "title") {
        UploadFieldName::Title
    } else if same_text(name, "description") {
        UploadFieldName::Description
    } else {
        UploadFieldName::Other
    }
}

/// One field of an upload form, as it was read.
pub enum UploadField {
    Image { content_type: Option<String>, bytes: Vec<u8> },
    Type(String),
    Title(String),
    Description(String),
    /// A field that could not be read.
    Unreadable(multer::Error),
}

/// What the fields of an upload form have given so far.
pub struct FormSoFar {
    pub image: Option<Seq<u8>>,
    pub image_type: Option<ImageUploadType>,
    pub title: Option<Seq<char>>,
    pub description: Option<Seq<char>>,
    pub content_type: Option<Seq<char>>,
}

/// Why the fields of a form give no form.
pub enum Stop {
    /// A field names no upload type.
    Parse,
    /// A field could not be read.
    Unreadable(multer::Error),
    /// The image or the upload type is missing.
    Missing,
}

/// What one more field makes of what the fields have given so far; the
/// reason where the reading stops at it. A later field of a name takes the
/// place of an earlier one.
pub open spec fn with_field(form: FormSoFar, field: UploadField) -> Result<FormSoFar, Stop> {
    match field {
        UploadField::Image { content_type, bytes } => Ok(
            FormSoFar { image: Some(bytes@), content_type: text_view(content_type), ..form },
        ),
        UploadField::Type(text) => match crate::images::upload_type_named(lowercase(text@)) {
            Some(t) => Ok(FormSoFar { image_type: Some(t), ..form }),
            None => Err(Stop::Parse),
        },
        UploadField::Title(text) => Ok(FormSoFar { title: Some(text@), ..form }),
        UploadField::Description(text) => Ok(FormSoFar { description: Some(text@), ..form }),
        UploadField::Unreadable(e) => Err(Stop::Unreadable(e)),
    }
}

/// What the first `n` fields give; the reason where the reading stops
/// among them.
pub open spec fn fields_read(fields: Seq<UploadField>, n: int) -> Result<FormSoFar, Stop>
    decreases n,
{
    if n <= 0 {
        Ok(
            FormSoFar {
                image: None,
                image_type: None,
                title: None,
                description: None,
                content_type: None,
            },
        )
    } else {
        match fields_read(fields, n - 1) {
            Ok(form) => with_field(form, fields[n - 1]),
            Err(stop) => Err(stop),
        }
    }
}

/// The text, or the empty text where there is none.
pub open spec fn or_empty(text: Option<Seq<char>>) -> Seq<char> {
    match text {
        Some(t) => t,
        None => Seq::empty(),
    }
}

/// The form that fields give when all are read: it needs an image and an
/// upload type; what else is missing is empty.
pub open spec fn form_of(form: FormSoFar) -> Option<ImageFormView> {
    match (form.image, form.image_type) {
        (Some(image), Some(image_type)) => Some(
            ImageFormView {
                image,
                image_type,
                title: or_empty(form.title),
                description: or_empty(form.description),
                mime: or_empty(form.content_type),
                image_name: Seq::empty(),
            },
        ),
        _ => None,
    }
}

/// Whether an upload ended as the fields of its form say: with the form, or
/// with the error of the field at which the reading stopped, or for want of
/// an image or an upload type.
pub open spec fn form_outcome(fields: Seq<UploadField>, outcome: Result<ImageForm, UploadError>) -> bool {
    match form_read(fields) {
        Ok(view) => outcome matches Ok(f) && f@ == view,
        Err(stop) => outcome matches Err(e) && stopped_with(stop, e),
    }
}

/// Reads the fields of an upload form in their order and makes the form of
/// them. The first field that could not be read ends the reading with its
/// error; the first that names no upload type ends it with the error of an
/// encoding that does not match.
pub fn image_form(fields: Vec<UploadField>) -> (outcome: Result<ImageForm, UploadError>)
    ensures
        form_outcome(fields@, outcome),
{
    let mut image: Option<Vec<u8>> = None;
    let mut image_type: Option<ImageUploadType> = None;
    let mut title: Option<String> = None;
    let mut description: Option<String> = None;
    let mut content_type: Option<String> = None;
    let ghost all = fields@;
    // The fields are taken from the end of a list, so the list is turned
    // round first.
    let mut rest = reversed(fields);
    let ghost mut n: int = 0;
    while rest.len() > 0
        invariant
            all == fields@,
            0 <= n,
            n + rest@.len() == all.len(),
            forall|j: int| 0 <= j < rest@.len() ==> rest@[j] == all[all.len() - 1 - j],
            fields_read(all, n) == Ok::<FormSoFar, Stop>(
                FormSoFar {
                    image: crate::images::file_view(image),
                    image_type,
                    title: text_view(title),
                    description: text_view(description),
                    content_type: text_view(content_type),
                },
            ),
        decreases rest@.len(),
    {
        let field = rest.pop().unwrap();
        assert(field == all[n]);
        assert(fields_read(all, n + 1) == with_field(fields_read(all, n)->Ok_0, field));
        match field {
            UploadField::Image { content_type: mime, bytes } => {
                content_type = mime;
                image = Some(bytes);
            },
            UploadField::Type(text) => {
                match ImageUploadType::parse(text.as_str()) {
                    Ok(t) => {
                        image_type = Some(t);
                    },
                    Err(_) => {
                        proof {
                            lemma_fields_stopped(all, n + 1, all.len() as int);
                        }
                        return Err(UploadError::FailedToAdd(ImageError::EncodingMismatch));
                    },
                }
            },
            UploadField::Title(text) => {
                title = Some(text);
            },
            UploadField::Description(text) => {
                description = Some(text);
            },
            UploadField::Unreadable(e) => {
                proof {
                    lemma_fields_stopped(all, n + 1, all.len() as int);
                }
                return Err(UploadError::MultipartError(e));
            },
        }
        proof {
            n = n + 1;
        }
    }
    match image {
        Some(image) => match image_type {
            Some(image_type) => Ok(
                ImageForm {
                    image,
                    image_type,
                    title: title.unwrap_or_default(),
                    description: description.unwrap_or_default(),
                    mime: content_type.unwrap_or_default(),
                    image_name: String::new(),
                },
            ),
            None => Err(UploadError::MissingFields),
        },
        None => Err(UploadError::MissingFields),
    }
}

/// Once the reading has stopped at a field, the fields behind it change
/// nothing.
pub proof fn lemma_fields_stopped(fields: Seq<UploadField>, n: int, m: int)
    requires
        0 <= n <= m,
        fields_read(fields, n) is Err,
    ensures
        fields_read(fields, m) == fields_read(fields, n),
    decreases m - n,
{
    if n < m {
        lemma_fields_stopped(fields, n, m - 1);
    }
}

/// The form that the fields of an upload give, or why they give none.
pub open spec fn form_read(fields: Seq<UploadField>) -> Result<ImageFormView, Stop> {
    match fields_read(fields, fields.len() as int) {
        Ok(form) => match form_of(form) {
            Some(view) => Ok(view),
            None => Err(Stop::Missing),
        },
        Err(stop) => Err(stop),
    }
}

/// Whether an error is the one that a stop of the reading gives.
pub open spec fn stopped_with(stop: Stop, error: UploadError) -> bool {
    match stop {
        Stop::Parse => error matches UploadError::FailedToAdd(ImageError::EncodingMismatch),
        Stop::Unreadable(e) => error matches UploadError::MultipartError(d) && d == e,
        Stop::Missing => error is MissingFields,
    }
}

/// The view of a built image or of the error of an upload.
pub open spec fn upload_built_view(built: Result<BuiltImage, UploadError>) -> Result<
    BuiltImageView,
    ImageError,
>
    recommends
        built matches Err(e) ==> e is FailedToAdd,
{
    match built {
        Ok(b) => Ok(b@),
        Err(UploadError::FailedToAdd(e)) => Err(e),
        Err(_) => arbitrary(),
    }
}

/// Builds the image of a form for the user `username`. Where that fails,
/// the upload fails with the reason.
pub fn upload_image(
    image_form: ImageForm,
    username: &str,
    download: &Download,
    bucket: Option<&str>,
) -> (built: Result<BuiltImage, UploadError>)
    ensures
        built matches Err(e) ==> e is FailedToAdd,
        build_outcome(
            image_form@,
            username@,
            *download,
            str_view(bucket),
            upload_built_view(built),
        ),
{
    match build_image_for_foto(image_form, username, download, bucket) {
        Ok(image) => Ok(image),
        Err(err) => Err(UploadError::FailedToAdd(err)),
    }
}

/// Whether `record` is `image` as it stands in the store `after`: put into
/// the store `before` under an id that no image had, its own if that was
/// free, and otherwise as it was.
pub open spec fn stored_as(
    before: DatabaseView,
    image: ImageView,
    record: ImageView,
    after: DatabaseView,
) -> bool {
    &&& added_under(before, image, record.id, after)
    &&& record == ImageView { id: record.id, ..image }
}

/// Puts a built image into the store: with the address of its file where
/// the file was put into the bucket, without one where it was not. Returns
/// the image as it stands in the store.
pub fn store_upload(built: BuiltImage, stored: bool, db: &mut Database) -> (added: Result<
    Image,
    UploadError,
>)
    requires
        old(db)@.wf(),
    ensures
        final(db)@.wf(),
        added matches Ok(record) && stored_as(
            old(db)@,
            finished(built@, stored),
            record@,
            final(db)@,
        ),
{
    let image = built.finish(stored);
    let mut record = image.duplicate();
    match add_image_to_db(image, db) {
        Ok(id) => {
            record.id = id;
            Ok(record)
        },
        Err(err) => Err(UploadError::FailedToAdd(err)),
    }
}

/// What an upload waits for, or what it ended with.
pub enum UploadStep {
    /// The address that the form names is to be asked for its file. The
    /// upload goes on with [`upload_fetched`].
    Fetch { form: ImageForm, url: String },
    /// The file of the built image is to be put into its bucket. The upload
    /// goes on with [`store_upload`].
    Put { built: BuiltImage },
    /// The image stands in the store.
    Done { image: Image },
}

/// Whether an upload went on from its form as the form says, once it was
/// known what came of asking the address. Where the form gives no image,
/// the upload fails with the reason and the store is as it was. Where a
/// bucket is configured, the built image waits for its file to be put
/// there, and the store is as it was. Else the image went into the store,
/// without an address, and is returned as it stands there.
pub open spec fn fetched_outcome(
    before: DatabaseView,
    form: ImageFormView,
    username: Seq<char>,
    download: Download,
    bucket: Option<Seq<char>>,
    outcome: Result<UploadStep, UploadError>,
    after: DatabaseView,
) -> bool {
    exists|built: Result<BuiltImageView, ImageError>| #[trigger]
        build_outcome(form, username, download, bucket, built) && match built {
            Err(reason) => outcome matches Err(UploadError::FailedToAdd(e)) && e == reason
                && after == before,
            Ok(b) => match b.upload {
                Some(_) => outcome matches Ok(UploadStep::Put { built: waiting }) && waiting@ == b
                    && after == before,
                None => outcome matches Ok(UploadStep::Done { image }) && stored_as(
                    before,
                    finished(b, false),
                    image@,
                    after,
                ),
            },
        }
}

/// Takes an upload on from its form, once it is known what came of asking
/// the address that the form names: builds the image and, where no bucket is
/// configured, puts it into the store.
pub fn upload_fetched(
    db: &mut Database,
    image_form: ImageForm,
    username: &str,
    download: &Download,
    bucket: Option<&str>,
) -> (outcome: Result<UploadStep, UploadError>)
    requires
        old(db)@.wf(),
    ensures
        final(db)@.wf(),
        fetched_outcome(
            old(db)@,
            image_form@,
            username@,
            *download,
            str_view(bucket),
            outcome,
            final(db)@,
        ),
{
    let ghost form = image_form@;
    let built = upload_image(image_form, username, download, bucket);
    proof {
        assert(build_outcome(form, username@, *download, str_view(bucket), upload_built_view(built)));
    }
    match built {
        Ok(built) => {
            if built.upload.is_some() {
                Ok(UploadStep::Put { built })
            } else {
                match store_upload(built, false, db) {
                    Ok(image) => Ok(UploadStep::Done { image }),
                    Err(e) => Err(e),
                }
            }
        },
        Err(e) => Err(e),
    }
}

/// Whether an upload began as its fields say. Where the fields give no
/// form, the upload fails with the reason. Where the form names an address,
/// the upload waits for the file to be fetched from it; an address that is
/// no valid UTF-8 fails as an encoding that does not match. In both cases
/// the store is as it was. Every other form goes on at once, as if the
/// address had been asked for nothing.
pub open spec fn upload_outcome(
    before: DatabaseView,
    fields: Seq<UploadField>,
    username: Seq<char>,
    bucket: Option<Seq<char>>,
    outcome: Result<UploadStep, UploadError>,
    after: DatabaseView,
) -> bool {
    match form_read(fields) {
        Err(stop) => outcome matches Err(e) && stopped_with(stop, e) && after == before,
        Ok(form) => if form.image_type == ImageUploadType::Url {
            &&& after == before
            &&& if valid_utf8(form.image) {
                outcome matches Ok(UploadStep::Fetch { form: waiting, url }) && waiting@ == form
                    && url@ == decode_utf8(form.image)
            } else {
                outcome matches Err(UploadError::FailedToAdd(ImageError::EncodingMismatch))
            }
        } else {
            fetched_outcome(before, form, username, Download::NotAttempted, bucket, outcome, after)
        },
    }
}

/// Takes an upload from the fields of its form as far as it goes without
/// work outside: to the store where the form holds the image and no bucket
/// is configured; else to the step that is to be done for it, the fetch of
/// the file from its address or the put of the file into the bucket.
pub fn upload(
    db: &mut Database,
    fields: Vec<UploadField>,
    username: &str,
    bucket: Option<&str>,
) -> (outcome: Result<UploadStep, UploadError>)
    requires
        old(db)@.wf(),
    ensures
        final(db)@.wf(),
        upload_outcome(old(db)@, fields@, username@, str_view(bucket), outcome, final(db)@),
{
    let image_form = match image_form(fields) {
        Ok(form) => form,
        Err(e) => { return Err(e); },
    };
    match fetch_target(&image_form.image_type, image_form.image.as_slice()) {
        Ok(Some(url)) => Ok(UploadStep::Fetch { form: image_form, url }),
        Ok(None) => upload_fetched(db, image_form, username, &Download::NotAttempted, bucket),
        Err(e) => Err(UploadError::FailedToAdd(e)),
    }
}

impl UploadError {
    /// The answer to an upload that failed: whatever the reason, a failure
    /// on the server's side with one message.
    pub fn respond_to(&self) -> (response: ApiResponse)
        ensures
            response@ == (ApiResponseView {
                message: "Failed to upload image"@,
                token: None,
                status: Status::internal_server_error(),
            }),
    {
        ApiResponse::message("Failed to upload image", Status::internal_server_error())
    }
}

} // verus!
