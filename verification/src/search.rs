//! Searches: from the fields of a form to the images that look like the
//! image of the form.

use vstd::prelude::*;
use vstd::string::*;
use crate::database::{Database, DatabaseView};
use vstd::utf8::{decode_utf8, valid_utf8};
use crate::images::{
    fetch_target, file_view, fingerprint_of, get_image_from_type_and_bytes, image_fingerprint,
    image_from_type_and_bytes, image_views, upload_type_named, Download, Image, ImageError,
    ImageUploadType, ImageView,
};
use crate::response::{ApiResponse, ApiResponseView, Status};
use crate::text::{lowercase, same_text};
use crate::upload::{reversed, Stop};

verus! {

/// Why a search failed.
#[derive(Debug)]
pub enum SearchError {
    /// A field could not be read.
    MultipartError(multer::Error),
    /// The form has no image or no upload type.
    MissingFields,
    /// The image of the form gave no fingerprint: the form names no upload
    /// type, the bytes are not what the type says or are no image, or the
    /// address gave none.
    FailedToSearch(ImageError),
}

/// The fields of a search form that are read.
#[derive(Debug, Clone, Copy, PartialEq, Eq, Structural)]
pub enum SearchFieldName {
    SimilarImage,
    SimilarImageType,
    /// Any other field: it is passed over.
    Other,
}

/// Which field of a search form a name stands for.
pub fn search_field_named(name: &str) -> (field: SearchFieldName)
    ensures
        field == if name@ == "similar_image"@ {
            SearchFieldName::SimilarImage
        } else if name@ == "similar_image_type"@ {
            SearchFieldName::SimilarImageType
        } else {
            SearchFieldName::Other
        },
{
    if same_text(name, "similar_image") {
        SearchFieldName::SimilarImage
    } else if same_text(name, "similar_image_type") {
        SearchFieldName::SimilarImageType
    } else {
        SearchFieldName::Other
    }
}

/// One field of a search form, as it was read.
pub enum SearchField {
    SimilarImage(Vec<u8>),
    SimilarImageType(String),
    /// A field that could not be read.
    Unreadable(multer::Error),
}

/// The image that a search is made for, and how its bytes are encoded.
pub struct SearchQuery {
    pub image: Vec<u8>,
    pub image_type: ImageUploadType,
}

/// What the fields of a search form have given so far.
pub struct QuerySoFar {
    pub image: Option<Seq<u8>>,
    pub image_type: Option<ImageUploadType>,
}

/// What one more field makes of what the fields have given so far; the
/// reason where the reading stops at it. A later field of a name takes the
/// place of an earlier one.
pub open spec fn with_search_field(query: QuerySoFar, field: SearchField) -> Result<
    QuerySoFar,
    Stop,
> {
    match field {
        SearchField::SimilarImage(bytes) => Ok(QuerySoFar { image: Some(bytes@), ..query }),
        SearchField::SimilarImageType(text) => match upload_type_named(lowercase(text@)) {
            Some(t) => Ok(QuerySoFar { image_type: Some(t), ..query }),
            None => Err(Stop::Parse),
        },
        SearchField::Unreadable(e) => Err(Stop::Unreadable(e)),
    }
}

/// What the first `n` fields give; the reason where the reading stops
/// among them.
pub open spec fn search_fields_read(fields: Seq<SearchField>, n: int) -> Result<QuerySoFar, Stop>
    decreases n,
{
    if n <= 0 {
        Ok(QuerySoFar { image: None, image_type: None })
    } else {
        match search_fields_read(fields, n - 1) {
            Ok(query) => with_search_field(query, fields[n - 1]),
            Err(stop) => Err(stop),
        }
    }
}

/// The query that the fields of a search form give, or why they give none.
pub open spec fn query_read(fields: Seq<SearchField>) -> Result<(Seq<u8>, ImageUploadType), Stop> {
    match search_fields_read(fields, fields.len() as int) {
        Ok(query) => match (query.image, query.image_type) {
            (Some(image), Some(image_type)) => Ok((image, image_type)),
            _ => Err(Stop::Missing),
        },
        Err(stop) => Err(stop),
    }
}

/// Whether an error is the one that a stop of the reading gives.
pub open spec fn search_stopped_with(stop: Stop, error: SearchError) -> bool {
    match stop {
        Stop::Parse => error matches SearchError::FailedToSearch(ImageError::EncodingMismatch),
        Stop::Unreadable(e) => error matches SearchError::MultipartError(d) && d == e,
        Stop::Missing => error is MissingFields,
    }
}

/// Once the reading has stopped at a field, the fields behind it change
/// nothing.
pub proof fn lemma_search_fields_stopped(fields: Seq<SearchField>, n: int, m: int)
    requires
        0 <= n <= m,
        search_fields_read(fields, n) is Err,
    ensures
        search_fields_read(fields, m) == search_fields_read(fields, n),
    decreases m - n,
{
    if n < m {
        lemma_search_fields_stopped(fields, n, m - 1);
    }
}

/// Reads the fields of a search form in their order and makes the query of
/// them. The first field that could not be read ends the reading with its
/// error; the first that names no upload type ends it with the error of an
/// encoding that does not match; a form without an image or without an
/// upload type gives no query.
pub fn search_query(fields: Vec<SearchField>) -> (outcome: Result<SearchQuery, SearchError>)
    ensures
        match query_read(fields@) {
            Ok((image, image_type)) => outcome matches Ok(q) && q.image@ == image && q.image_type
                == image_type,
            Err(stop) => outcome matches Err(e) && search_stopped_with(stop, e),
        },
{
    let mut image: Option<Vec<u8>> = None;
    let mut image_type: Option<ImageUploadType> = None;
    let ghost all = fields@;
    // The fields are taken from the end of a list, so the list is turned
    // round first.
    let mut rest = reversed(fields);
    let ghost mut n: int = 0;
    while rest.len() > 0
        invariant
            all == fields@,
            0 <= n,
            n + rest@.len() == all.len(),
            forall|j: int| 0 <= j < rest@.len() ==> rest@[j] == all[all.len() - 1 - j],
            search_fields_read(all, n) == Ok::<QuerySoFar, Stop>(
                QuerySoFar { image: file_view(image), image_type },
            ),
        decreases rest@.len(),
    {
        let field = rest.pop().unwrap();
        assert(field == all[n]);
        assert(search_fields_read(all, n + 1) == with_search_field(
            search_fields_read(all, n)->Ok_0,
            field,
        ));
        match field {
            SearchField::SimilarImage(bytes) => {
                image = Some(bytes);
            },
            SearchField::SimilarImageType(text) => {
                match ImageUploadType::parse(text.as_str()) {
                    Ok(t) => {
                        image_type = Some(t);
                    },
                    Err(_) => {
                        proof {
                            lemma_search_fields_stopped(all, n + 1, all.len() as int);
                        }
                        return Err(SearchError::FailedToSearch(ImageError::EncodingMismatch));
                    },
                }
            },
            SearchField::Unreadable(e) => {
                proof {
                    lemma_search_fields_stopped(all, n + 1, all.len() as int);
                }
                return Err(SearchError::MultipartError(e));
            },
        }
        proof {
            n = n + 1;
        }
    }
    match image {
        Some(image) => match image_type {
            Some(image_type) => Ok(SearchQuery { image, image_type }),
            None => Err(SearchError::MissingFields),
        },
        None => Err(SearchError::MissingFields),
    }
}

/// The fingerprint of the image of a query, or why it has none.
pub open spec fn fingerprint_of_query(
    image: Seq<u8>,
    image_type: ImageUploadType,
    download: Download,
) -> Result<Seq<u8>, ImageError> {
    match image_from_type_and_bytes(image_type, image, download) {
        Err(e) => Err(e),
        Ok((decoded, _, _)) => match fingerprint_of(decoded) {
            Some(hash) => Ok(hash),
            None => Err(ImageError::InvalidFingerprint),
        },
    }
}

/// Decodes the image of a query and takes its fingerprint.
pub fn query_fingerprint(query: &SearchQuery, download: &Download) -> (hash: Result<
    [u8; 8],
    ImageError,
>)
    ensures
        match fingerprint_of_query(query.image@, query.image_type, *download) {
            Ok(h) => hash matches Ok(f) && f@ == h,
            Err(e) => hash == Err::<[u8; 8], ImageError>(e),
        },
{
    let (image, _format, _file) = match get_image_from_type_and_bytes(
        &query.image_type,
        query.image.as_slice(),
        download,
    ) {
        Ok(loaded) => loaded,
        Err(e) => { return Err(e); },
    };
    image_fingerprint(&image)
}

/// The images of the store whose fingerprint lies within `threshold` bits
/// of `hash`: an exact scan of all buckets, bucket after bucket in the order
/// of the store, each oldest first. A store without images gives none.
pub fn return_search_results(db: &Database, hash: &[u8; 8], threshold: u64) -> (results: Vec<
    Image,
>)
    ensures
        image_views(results@) == db@.search(hash@, threshold),
{
    db.search(hash, threshold)
}

/// The threshold of a search: the one it names, else the default.
pub open spec fn threshold_of(named: Option<u64>, default_threshold: u64) -> u64 {
    match named {
        Some(t) => t,
        None => default_threshold,
    }
}

/// What a search waits for, or what it ended with.
pub enum SearchStep {
    /// The address that the query names is to be asked for its file. The
    /// search goes on with [`search_fetched`].
    Fetch { query: SearchQuery, url: String },
    /// The images that were found.
    Done { images: Vec<Image> },
}

/// What a search for a query gives, once it is known what came of asking
/// the address that the query names: the images within the threshold of
/// the query's fingerprint, or why there is no such fingerprint.
pub open spec fn search_results(
    db: DatabaseView,
    image: Seq<u8>,
    image_type: ImageUploadType,
    download: Download,
    threshold: u64,
) -> Result<Seq<ImageView>, ImageError> {
    match fingerprint_of_query(image, image_type, download) {
        Err(e) => Err(e),
        Ok(hash) => Ok(db.search(hash, threshold)),
    }
}

/// Searches the store for the images that look like the image of a query,
/// once it is known what came of asking the address that the query names:
/// those whose fingerprint lies within the threshold of its fingerprint.
/// `threshold` is the threshold that the search names, if it names one.
pub fn search_fetched(
    db: &Database,
    query: &SearchQuery,
    download: &Download,
    threshold: Option<u64>,
    default_threshold: u64,
) -> (outcome: Result<Vec<Image>, SearchError>)
    ensures
        match search_results(
            db@,
            query.image@,
            query.image_type,
            *download,
            threshold_of(threshold, default_threshold),
        ) {
            Ok(found) => outcome matches Ok(images) && image_views(images@) == found,
            Err(reason) => outcome matches Err(SearchError::FailedToSearch(e)) && e == reason,
        },
{
    let hash = match query_fingerprint(query, download) {
        Ok(h) => h,
        Err(e) => { return Err(SearchError::FailedToSearch(e)); },
    };
    let threshold = match threshold {
        Some(t) => t,
        None => default_threshold,
    };
    Ok(return_search_results(db, &hash, threshold))
}

/// Whether a search began as its fields say. Where the fields give no
/// query, the search fails with the reason. Where the query names an
/// address, the search waits for the file to be fetched from it; an address
/// that is no valid UTF-8 fails as an encoding that does not match. Every
/// other query is searched for at once.
pub open spec fn search_outcome(
    db: DatabaseView,
    fields: Seq<SearchField>,
    threshold: u64,
    outcome: Result<SearchStep, SearchError>,
) -> bool {
    match query_read(fields) {
        Err(stop) => outcome matches Err(e) && search_stopped_with(stop, e),
        Ok((image, image_type)) => if image_type == ImageUploadType::Url {
            if valid_utf8(image) {
                outcome matches Ok(SearchStep::Fetch { query, url }) && query.image@ == image
                    && query.image_type == image_type && url@ == decode_utf8(image)
            } else {
                outcome matches Err(SearchError::FailedToSearch(ImageError::EncodingMismatch))
            }
        } else {
            match search_results(db, image, image_type, Download::NotAttempted, threshold) {
                Ok(found) => outcome matches Ok(SearchStep::Done { images }) && image_views(
                    images@,
                ) == found,
                Err(reason) => outcome matches Err(SearchError::FailedToSearch(e)) && e
                    == reason,
            }
        },
    }
}

/// Takes a search from the fields of its form as far as it goes without
/// work outside: to the images that look like the image of the form, where
/// the form holds the image; else to the fetch of the file from its
/// address. `threshold` is the threshold that the search names, if it names
/// one.
pub fn search(
    db: &Database,
    fields: Vec<SearchField>,
    threshold: Option<u64>,
    default_threshold: u64,
) -> (outcome: Result<SearchStep, SearchError>)
    ensures
        search_outcome(db@, fields@, threshold_of(threshold, default_threshold), outcome),
{
    let query = match search_query(fields) {
        Ok(q) => q,
        Err(e) => { return Err(e); },
    };
    match fetch_target(&query.image_type, query.image.as_slice()) {
        Ok(Some(url)) => Ok(SearchStep::Fetch { query, url }),
        Ok(None) => {
            match search_fetched(db, &query, &Download::NotAttempted, threshold, default_threshold) {
                Ok(images) => Ok(SearchStep::Done { images }),
                Err(e) => Err(e),
            }
        },
        Err(e) => Err(SearchError::FailedToSearch(e)),
    }
}

impl SearchError {
    /// The answer to a search that failed: whatever the reason, a failure
    /// on the server's side with one message.
    pub fn respond_to(&self) -> (response: ApiResponse)
        ensures
            response@ == (ApiResponseView {
                message: "Failed to search for image"@,
                token: None,
                status: Status::internal_server_error(),
            }),
    {
        ApiResponse::message("Failed to search for image", Status::internal_server_error())
    }
}

} // verus!
