use foto::database::Database;
use foto::images::{Download, Image, ImageError, ImageUploadType};
use foto::response::Status;
use foto::search::{
    query_fingerprint, search, search_fetched, search_field_named, search_query, SearchError,
    SearchField, SearchFieldName, SearchQuery, SearchStep,
};
use foto::upload::{
    image_form, reversed, store_upload, upload, upload_fetched, upload_field_named,
    upload_image, Boundary, UploadError, UploadField, UploadFieldName, UploadStep,
};
use image::{DynamicImage, ImageOutputFormat, Rgb, RgbImage};

fn solid(width: u32, height: u32) -> Vec<u8> {
    let image = DynamicImage::ImageRgb8(RgbImage::from_pixel(width, height, Rgb([10, 200, 30])));
    let mut bytes = Vec::new();
    image.write_to(&mut bytes, ImageOutputFormat::Png).unwrap();
    bytes
}

fn rising(width: u32, height: u32) -> Vec<u8> {
    let image = DynamicImage::ImageRgb8(RgbImage::from_fn(width, height, |x, _| {
        let v = (x * 255 / (width - 1)) as u8;
        Rgb([v, v, v])
    }));
    let mut bytes = Vec::new();
    image.write_to(&mut bytes, ImageOutputFormat::Png).unwrap();
    bytes
}

fn file_fields(bytes: Vec<u8>) -> Vec<UploadField> {
    vec![
        UploadField::Image { content_type: Some("image/png".to_string()), bytes },
        UploadField::Type("file".to_string()),
        UploadField::Title("a title".to_string()),
        UploadField::Description("a description".to_string()),
    ]
}

fn query_fields(bytes: Vec<u8>) -> Vec<SearchField> {
    vec![SearchField::SimilarImage(bytes), SearchField::SimilarImageType("file".to_string())]
}

/// Runs an upload to its end, with what the outside work is to give.
fn run_upload(
    db: &mut Database,
    fields: Vec<UploadField>,
    username: &str,
    download: &Download,
    bucket: Option<&str>,
    stored: bool,
) -> Result<Image, UploadError> {
    let mut step = upload(db, fields, username, bucket)?;
    loop {
        step = match step {
            UploadStep::Fetch { form, .. } => upload_fetched(db, form, username, download, bucket)?,
            UploadStep::Put { built } => UploadStep::Done { image: store_upload(built, stored, db)? },
            UploadStep::Done { image } => return Ok(image),
        };
    }
}

/// Runs a search to its end, with what the fetch is to give.
fn run_search(
    db: &Database,
    fields: Vec<SearchField>,
    download: &Download,
    threshold: Option<u64>,
    default_threshold: u64,
) -> Result<Vec<Image>, SearchError> {
    match search(db, fields, threshold, default_threshold)? {
        SearchStep::Fetch { query, .. } => {
            search_fetched(db, &query, download, threshold, default_threshold)
        }
        SearchStep::Done { images } => Ok(images),
    }
}

#[test]
fn upload_fields_are_known_by_name() {
    assert_eq!(upload_field_named("image"), UploadFieldName::Image);
    assert_eq!(upload_field_named("type"), UploadFieldName::Type);
    assert_eq!(upload_field_named("title"), UploadFieldName::Title);
    assert_eq!(upload_field_named("description"), UploadFieldName::Description);
    assert_eq!(upload_field_named("Image"), UploadFieldName::Other);
    assert_eq!(upload_field_named("image_type"), UploadFieldName::Other);
    assert_eq!(upload_field_named(""), UploadFieldName::Other);
}

#[test]
fn search_fields_are_known_by_name() {
    assert_eq!(search_field_named("similar_image"), SearchFieldName::SimilarImage);
    assert_eq!(search_field_named("similar_image_type"), SearchFieldName::SimilarImageType);
    assert_eq!(search_field_named("image"), SearchFieldName::Other);
    assert_eq!(search_field_named("similar_image "), SearchFieldName::Other);
}

#[test]
fn image_form_takes_the_fields_in_order() {
    let form = image_form(vec![
        UploadField::Title("first".to_string()),
        UploadField::Type("URL".to_string()),
        UploadField::Image { content_type: None, bytes: vec![1] },
        UploadField::Image { content_type: Some("image/gif".to_string()), bytes: vec![2, 3] },
        UploadField::Title("second".to_string()),
        UploadField::Type("Base64".to_string()),
    ])
    .unwrap();
    assert_eq!(form.image, vec![2, 3]);
    assert_eq!(form.image_type, ImageUploadType::Base64);
    assert_eq!(form.title, "second");
    assert_eq!(form.description, "");
    assert_eq!(form.mime, "image/gif");
    assert_eq!(form.image_name, "");
}

#[test]
fn image_form_defaults_what_is_missing() {
    let form = image_form(vec![
        UploadField::Type("file".to_string()),
        UploadField::Image { content_type: None, bytes: vec![7] },
    ])
    .unwrap();
    assert_eq!(form.title, "");
    assert_eq!(form.description, "");
    assert_eq!(form.mime, "");
    assert_eq!(form.image_type, ImageUploadType::File);
}

#[test]
fn image_form_needs_image_and_type() {
    let missing = |fields: Vec<UploadField>| {
        matches!(image_form(fields), Err(UploadError::MissingFields))
    };
    assert!(missing(vec![]));
    assert!(missing(vec![UploadField::Type("file".to_string())]));
    assert!(missing(vec![UploadField::Image { content_type: None, bytes: vec![] }]));
    assert!(missing(vec![
        UploadField::Title("t".to_string()),
        UploadField::Description("d".to_string())
    ]));
}

#[test]
fn image_form_stops_at_the_first_bad_field() {
    let parse = image_form(vec![
        UploadField::Type("jpeg".to_string()),
        UploadField::Unreadable(multer::Error::IncompleteStream),
    ]);
    assert!(matches!(parse, Err(UploadError::FailedToAdd(ImageError::EncodingMismatch))));
    let unreadable = image_form(vec![
        UploadField::Image { content_type: None, bytes: vec![1] },
        UploadField::Unreadable(multer::Error::IncompleteStream),
        UploadField::Type("jpeg".to_string()),
    ]);
    match unreadable {
        Err(UploadError::MultipartError(e)) => assert_eq!(e, multer::Error::IncompleteStream),
        _ => panic!("the unreadable field ends the reading"),
    }
    let first = image_form(vec![
        UploadField::Unreadable(multer::Error::NoBoundary),
        UploadField::Unreadable(multer::Error::IncompleteStream),
    ]);
    match first {
        Err(UploadError::MultipartError(e)) => assert_eq!(e, multer::Error::NoBoundary),
        _ => panic!("the first unreadable field ends the reading"),
    }
}

#[test]
fn upload_then_exact_search() {
    let mut db = Database::new();
    let bytes = solid(20, 10);
    let id = run_upload(&mut db, file_fields(bytes.clone()), "ada", &Download::NotAttempted, None, false)
        .unwrap().id;
    assert_eq!(db.len(), 1);
    let stored = db.get_by_id(&id).unwrap();
    assert_eq!(stored.hash, [0u8; 8]);
    let found =
        run_search(&db, query_fields(bytes), &Download::NotAttempted, Some(0), 20).unwrap();
    assert_eq!(found.len(), 1);
    assert_eq!(found[0].id, id);
    assert_eq!(found[0].username, "ada");
    assert_eq!(found[0].title, "a title");
    assert_eq!(found[0].description, "a description");
    assert_eq!(found[0].image_type, "image/png");
    assert_eq!((found[0].width, found[0].height), (20, 10));
    assert_eq!(found[0].image_url, "");
}

#[test]
fn upload_of_an_unsupported_format_creates_no_record() {
    let mut db = Database::new();
    let result = run_upload(
        &mut db,
        file_fields(b"these bytes are no image".to_vec()),
        "ada",
        &Download::NotAttempted,
        None,
        false,
    );
    assert!(matches!(result, Err(UploadError::FailedToAdd(ImageError::UnsupportedFormat))));
    assert_eq!(db.len(), 0);
    assert!(db.iter_fingerprints().is_empty());
}

#[test]
fn upload_by_address_that_never_answers_creates_no_record() {
    let mut db = Database::new();
    let fields = || {
        vec![
            UploadField::Image {
                content_type: None,
                bytes: b"http://10.255.255.1/slow.png".to_vec(),
            },
            UploadField::Type("url".to_string()),
        ]
    };
    let result = run_upload(&mut db, fields(), "ada", &Download::Failed, None, false);
    assert!(matches!(result, Err(UploadError::FailedToAdd(ImageError::FetchFailed))));
    let result = run_upload(
        &mut db,
        fields(),
        "ada",
        &Download::Answered { success: false, body: solid(2, 2) },
        None,
        false,
    );
    assert!(matches!(result, Err(UploadError::FailedToAdd(ImageError::FetchFailed))));
    assert_eq!(db.len(), 0);
    let result = run_upload(
        &mut db,
        fields(),
        "ada",
        &Download::Answered { success: true, body: solid(2, 2) },
        None,
        false,
    );
    assert!(result.is_ok());
    assert_eq!(db.len(), 1);
}

#[test]
fn upload_without_fields_creates_no_record() {
    let mut db = Database::new();
    let result = run_upload(&mut db, vec![], "ada", &Download::NotAttempted, None, false);
    assert!(matches!(result, Err(UploadError::MissingFields)));
    assert_eq!(db.len(), 0);
}

#[test]
fn upload_keeps_the_address_of_a_stored_file_only() {
    let mut db = Database::new();
    let stored =
        run_upload(&mut db, file_fields(solid(4, 4)), "ada", &Download::NotAttempted, Some("pics"), true)
            .unwrap().id;
    let failed =
        run_upload(&mut db, file_fields(solid(4, 4)), "ada", &Download::NotAttempted, Some("pics"), false)
            .unwrap().id;
    let unconfigured =
        run_upload(&mut db, file_fields(solid(4, 4)), "ada", &Download::NotAttempted, None, true)
            .unwrap().id;
    assert_eq!(
        db.get_by_id(&stored).unwrap().image_url,
        format!("https://pics.s3.amazonaws.com/{}.png", stored)
    );
    assert_eq!(db.get_by_id(&failed).unwrap().image_url, "");
    assert_eq!(db.get_by_id(&unconfigured).unwrap().image_url, "");
    assert_eq!(db.bucket_for(&[0u8; 8]).len(), 3);
}

#[test]
fn upload_in_two_steps() {
    let mut db = Database::new();
    let form = image_form(file_fields(rising(40, 40))).unwrap();
    let built = upload_image(form, "bob", &Download::NotAttempted, Some("pics")).unwrap();
    let key = built.upload.as_ref().unwrap().key.clone();
    let id = store_upload(built, true, &mut db).unwrap().id;
    assert_eq!(key, format!("{}.png", id));
    let image = db.get_by_id(&id).unwrap();
    assert_eq!(image.hash, [0xffu8; 8]);
    assert_eq!(image.username, "bob");
    let bad = image_form(file_fields(vec![1, 2, 3])).unwrap();
    assert!(matches!(
        upload_image(bad, "bob", &Download::NotAttempted, None),
        Err(UploadError::FailedToAdd(ImageError::UnsupportedFormat))
    ));
}

#[test]
fn search_uses_the_default_threshold() {
    let mut db = Database::new();
    let light = run_upload(&mut db, file_fields(solid(8, 8)), "ada", &Download::NotAttempted, None, false)
        .unwrap().id;
    let steep = run_upload(&mut db, file_fields(rising(64, 64)), "ada", &Download::NotAttempted, None, false)
        .unwrap().id;
    let query = || query_fields(solid(30, 30));
    let ids = |found: Vec<foto::images::Image>| -> Vec<String> {
        found.into_iter().map(|i| i.id).collect()
    };
    assert_eq!(ids(run_search(&db, query(), &Download::NotAttempted, None, 20).unwrap()), vec![light.clone()]);
    assert_eq!(ids(run_search(&db, query(), &Download::NotAttempted, None, 63).unwrap()), vec![light.clone()]);
    assert_eq!(
        ids(run_search(&db, query(), &Download::NotAttempted, None, 64).unwrap()),
        vec![light.clone(), steep.clone()]
    );
    assert_eq!(
        ids(run_search(&db, query(), &Download::NotAttempted, Some(1000), 0).unwrap()),
        vec![light.clone(), steep]
    );
    assert_eq!(ids(run_search(&db, query(), &Download::NotAttempted, Some(0), 64).unwrap()), vec![light]);
}

#[test]
fn search_needs_image_and_type() {
    let db = Database::new();
    let run = |fields: Vec<SearchField>| run_search(&db, fields, &Download::NotAttempted, None, 20);
    assert!(matches!(run(vec![]), Err(SearchError::MissingFields)));
    assert!(matches!(
        run(vec![SearchField::SimilarImage(solid(2, 2))]),
        Err(SearchError::MissingFields)
    ));
    assert!(matches!(
        run(vec![SearchField::SimilarImageType("file".to_string())]),
        Err(SearchError::MissingFields)
    ));
    assert!(matches!(
        run(vec![SearchField::SimilarImageType("nothing".to_string())]),
        Err(SearchError::FailedToSearch(ImageError::EncodingMismatch))
    ));
    for name in ["jpeg", "", " url"] {
        assert!(matches!(
            run(vec![
                SearchField::SimilarImage(solid(2, 2)),
                SearchField::SimilarImageType(name.to_string())
            ]),
            Err(SearchError::FailedToSearch(ImageError::EncodingMismatch))
        ));
    }
    match run(vec![SearchField::Unreadable(multer::Error::IncompleteStream)]) {
        Err(SearchError::MultipartError(e)) => assert_eq!(e, multer::Error::IncompleteStream),
        _ => panic!("the unreadable field ends the reading"),
    }
    assert!(matches!(
        run(query_fields(b"no image".to_vec())),
        Err(SearchError::FailedToSearch(ImageError::UnsupportedFormat))
    ));
    assert!(run(query_fields(solid(2, 2))).unwrap().is_empty());
}

#[test]
fn search_query_is_the_last_image_and_type() {
    let query = search_query(vec![
        SearchField::SimilarImage(vec![1]),
        SearchField::SimilarImageType("url".to_string()),
        SearchField::SimilarImage(vec![2]),
        SearchField::SimilarImageType("FILE".to_string()),
    ])
    .unwrap();
    assert_eq!(query.image, vec![2]);
    assert_eq!(query.image_type, ImageUploadType::File);
}

#[test]
fn query_fingerprint_is_the_fingerprint_of_the_image() {
    let query = SearchQuery { image: rising(50, 20), image_type: ImageUploadType::File };
    assert_eq!(query_fingerprint(&query, &Download::NotAttempted), Ok([0xffu8; 8]));
    let text = SearchQuery {
        image: base64::encode(solid(5, 5)).into_bytes(),
        image_type: ImageUploadType::Base64,
    };
    assert_eq!(query_fingerprint(&text, &Download::NotAttempted), Ok([0u8; 8]));
    let address =
        SearchQuery { image: b"http://example.org".to_vec(), image_type: ImageUploadType::Url };
    assert_eq!(query_fingerprint(&address, &Download::Failed), Err(ImageError::FetchFailed));
}

#[test]
fn failures_are_answered_with_one_message() {
    let upload = UploadError::MissingFields.respond_to();
    assert_eq!(upload.status, Status::internal_server_error());
    assert_eq!(upload.status.code, 500);
    assert_eq!(upload.json.message, "Failed to upload image");
    assert_eq!(upload.json.token, None);
    let upload = UploadError::FailedToAdd(ImageError::FetchFailed).respond_to();
    assert_eq!(upload.json.message, "Failed to upload image");
    let search = SearchError::FailedToSearch(ImageError::UnsupportedFormat).respond_to();
    assert_eq!(search.status.code, 500);
    assert_eq!(search.json.message, "Failed to search for image");
}

#[test]
fn boundary_is_read_from_the_content_type() {
    let boundary = Boundary::from_request(Some("multipart/form-data; boundary=ABCDEFG")).unwrap();
    assert_eq!(boundary.val, "ABCDEFG");
    let boundary =
        Boundary::from_request(Some("multipart/form-data; boundary=------ABCDEFG")).unwrap();
    assert_eq!(boundary.val, "------ABCDEFG");
    assert_eq!(Boundary::from_request(None).err(), Some(Status::bad_request()));
    assert_eq!(Boundary::from_request(Some("text/plain")).err(), Some(Status::bad_request()));
    assert_eq!(
        Boundary::from_request(Some("multipart/form-data")).err(),
        Some(Status::bad_request())
    );
    assert_eq!(Boundary::from_request(Some("")).err(), Some(Status { code: 400 }));
}

#[test]
fn upload_returns_the_record_as_it_is_stored() {
    let mut db = Database::new();
    let first = run_upload(&mut db, file_fields(solid(6, 5)), "ada", &Download::NotAttempted, None, false)
        .unwrap();
    let stored = db.get_by_id(&first.id).unwrap();
    assert_eq!(first.id, stored.id);
    assert_eq!(first.hash, stored.hash);
    assert_eq!(first.username, "ada");
    assert_eq!(first.title, "a title");
    assert_eq!((first.width, first.height), (6, 5));
    assert_eq!(first.datetime, stored.datetime);
    assert_eq!(first.image_url, "");
    let put = run_upload(&mut db, file_fields(solid(6, 5)), "ada", &Download::NotAttempted, Some("pics"), true)
        .unwrap();
    assert_eq!(put.image_url, format!("https://pics.s3.amazonaws.com/{}.png", put.id));
    assert_eq!(db.get_by_id(&put.id).unwrap().image_url, put.image_url);
}

#[test]
fn upload_waits_for_the_work_outside() {
    let mut db = Database::new();
    let by_address = vec![
        UploadField::Image { content_type: None, bytes: b"http://example.org/a.png".to_vec() },
        UploadField::Type("URL".to_string()),
        UploadField::Title("t".to_string()),
    ];
    match upload(&mut db, by_address, "ada", None) {
        Ok(UploadStep::Fetch { form, url }) => {
            assert_eq!(url, "http://example.org/a.png");
            assert_eq!(form.image, b"http://example.org/a.png".to_vec());
            assert_eq!(form.image_type, ImageUploadType::Url);
            assert_eq!(form.title, "t");
        }
        _ => panic!("an upload by address waits for the fetch"),
    }
    assert_eq!(db.len(), 0);
    let bad_address = vec![
        UploadField::Image { content_type: None, bytes: vec![b'h', 0xff] },
        UploadField::Type("url".to_string()),
    ];
    assert!(matches!(
        upload(&mut db, bad_address, "ada", None),
        Err(UploadError::FailedToAdd(ImageError::EncodingMismatch))
    ));
    match upload(&mut db, file_fields(solid(3, 3)), "ada", Some("pics")) {
        Ok(UploadStep::Put { built }) => {
            let put = built.upload.as_ref().unwrap();
            assert_eq!(put.bucket, "pics");
            assert_eq!(put.key, format!("{}.png", built.image.id));
            assert_eq!(built.image.image_url, "");
        }
        _ => panic!("an upload with a bucket waits for the put"),
    }
    assert_eq!(db.len(), 0);
    match upload(&mut db, file_fields(solid(3, 3)), "ada", None) {
        Ok(UploadStep::Done { image }) => assert_eq!(db.get_by_id(&image.id).unwrap().id, image.id),
        _ => panic!("an upload without a bucket goes into the store at once"),
    }
    assert_eq!(db.len(), 1);
}

#[test]
fn upload_type_that_names_none_is_an_encoding_mismatch() {
    let mut db = Database::new();
    for name in ["jpeg", "", " url", "files"] {
        let fields = vec![
            UploadField::Image { content_type: None, bytes: solid(2, 2) },
            UploadField::Type(name.to_string()),
        ];
        assert!(matches!(
            upload(&mut db, fields, "ada", None),
            Err(UploadError::FailedToAdd(ImageError::EncodingMismatch))
        ));
    }
    assert_eq!(db.len(), 0);
}

#[test]
fn search_waits_for_the_fetch() {
    let mut db = Database::new();
    let id = run_upload(&mut db, file_fields(solid(9, 9)), "ada", &Download::NotAttempted, None, false)
        .unwrap()
        .id;
    let by_address = || {
        vec![
            SearchField::SimilarImage(b"http://example.org/q.png".to_vec()),
            SearchField::SimilarImageType("url".to_string()),
        ]
    };
    match search(&db, by_address(), Some(0), 20) {
        Ok(SearchStep::Fetch { query, url }) => {
            assert_eq!(url, "http://example.org/q.png");
            assert_eq!(query.image_type, ImageUploadType::Url);
            let answered = Download::Answered { success: true, body: solid(4, 4) };
            let found = search_fetched(&db, &query, &answered, Some(0), 20).unwrap();
            assert_eq!(found.len(), 1);
            assert_eq!(found[0].id, id);
            assert!(matches!(
                search_fetched(&db, &query, &Download::Failed, Some(0), 20),
                Err(SearchError::FailedToSearch(ImageError::FetchFailed))
            ));
        }
        _ => panic!("a search by address waits for the fetch"),
    }
    assert!(matches!(
        search(&db, query_fields(solid(4, 4)), Some(0), 20),
        Ok(SearchStep::Done { .. })
    ));
}

#[test]
fn reversed_turns_a_list_round() {
    assert_eq!(reversed(vec![1, 2, 3]), vec![3, 2, 1]);
    assert_eq!(reversed(Vec::<u8>::new()), Vec::<u8>::new());
    assert_eq!(reversed(vec!["a".to_string()]), vec!["a".to_string()]);
}
