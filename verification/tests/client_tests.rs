use gcs_client::client::{CompletePlan, GoogleCloudStorageClient};
use gcs_client::config::{ClientOptions, GoogleCloudStorageConfig, RetryConfig};
use gcs_client::errors::Error;
use gcs_client::request::{HttpMethod, ResponseHead, SendOutcome};
use gcs_client::types::{
    Attribute, Attributes, GetOptions, GetRange, PaginatedListOptions, Path, PutMode, PutOptions,
    PutPayload, UpdateVersion,
};

fn test_client() -> GoogleCloudStorageClient {
    let config = GoogleCloudStorageConfig::new(
        "https://storage.example.com".to_string(),
        "my-bucket".to_string(),
        RetryConfig { max_retries: 3, retry_timeout_secs: 30 },
        ClientOptions::new(),
        false,
    );
    GoogleCloudStorageClient::new(config)
}

fn header<'a>(headers: &'a [(String, String)], name: &str) -> Option<&'a str> {
    headers.iter().find(|(k, _)| k == name).map(|(_, v)| v.as_str())
}

fn query<'a>(pairs: &'a [(String, String)], name: &str) -> Option<&'a str> {
    pairs.iter().find(|(k, _)| k == name).map(|(_, v)| v.as_str())
}

#[test]
fn object_url_percent_encodes_bucket_and_path() {
    let client = test_client();
    let path = Path::from_string("a/b c.txt".to_string());
    assert_eq!(
        client.object_url(&path),
        "https://storage.example.com/my%2Dbucket/a%2Fb%20c%2Etxt"
    );
}

#[test]
fn create_mode_precondition_maps_to_already_exists() {
    let client = test_client();
    let path = Path::from_string("existing".to_string());
    let r = client.put_finish(&PutMode::Create, SendOutcome::Failed(Some(412)), &path);
    assert_eq!(r.unwrap_err(), Error::AlreadyExists { path: "existing".to_string() });
}

#[test]
fn overwrite_mode_precondition_stays_precondition() {
    let client = test_client();
    let path = Path::from_string("existing".to_string());
    let r = client.put_finish(&PutMode::Overwrite, SendOutcome::Failed(Some(412)), &path);
    assert_eq!(r.unwrap_err(), Error::Precondition { path: "existing".to_string() });
}

#[test]
fn put_failure_statuses_classify() {
    let client = test_client();
    let path = Path::from_string("p".to_string());
    let r404 = client.put_finish(&PutMode::Overwrite, SendOutcome::Failed(Some(404)), &path);
    assert_eq!(r404.unwrap_err(), Error::NotFound { path: "p".to_string() });
    let r304 = client.put_finish(&PutMode::Overwrite, SendOutcome::Failed(Some(304)), &path);
    assert_eq!(r304.unwrap_err(), Error::NotModified { path: "p".to_string() });
    let r500 = client.put_finish(&PutMode::Overwrite, SendOutcome::Failed(Some(500)), &path);
    assert_eq!(r500.unwrap_err(), Error::Request { path: "p".to_string(), status: Some(500) });
}

#[test]
fn update_without_version_fails_locally() {
    let client = test_client();
    let path = Path::from_string("obj".to_string());
    let opts = PutOptions {
        mode: PutMode::Update(UpdateVersion { e_tag: None, version: None }),
        attributes: Attributes::new(),
        extensions: http::Extensions::new(),
    };
    let r = client.put_plan(&path, PutPayload::new(), opts);
    assert_eq!(r.unwrap_err(), Error::MissingVersion);
}

#[test]
fn update_with_version_attaches_generation_match() {
    let client = test_client();
    let path = Path::from_string("obj".to_string());
    let opts = PutOptions {
        mode: PutMode::Update(UpdateVersion { e_tag: None, version: Some("42".to_string()) }),
        attributes: Attributes::new(),
        extensions: http::Extensions::new(),
    };
    let req = client.put_plan(&path, PutPayload::new(), opts).unwrap();
    assert_eq!(header(&req.headers, "x-goog-if-generation-match"), Some("42"));
    assert!(!req.idempotent);
}

#[test]
fn idempotency_flags() {
    let client = test_client();
    let path = Path::from_string("obj".to_string());
    let overwrite = client
        .put_plan(
            &path,
            PutPayload::new(),
            PutOptions {
                mode: PutMode::Overwrite,
                attributes: Attributes::new(),
                extensions: http::Extensions::new(),
            },
        )
        .unwrap();
    assert!(overwrite.idempotent);
    let create = client
        .put_plan(
            &path,
            PutPayload::new(),
            PutOptions {
                mode: PutMode::Create,
                attributes: Attributes::new(),
                extensions: http::Extensions::new(),
            },
        )
        .unwrap();
    assert!(!create.idempotent);
    assert_eq!(header(&create.headers, "x-goog-if-generation-match"), Some("0"));
    let part = client.put_part_plan(&path, &"sess".to_string(), 0, PutPayload::new());
    assert!(part.idempotent);
    let copy_plain = client.copy_plan(&Path::from_string("a".to_string()), &path, false);
    assert!(copy_plain.idempotent);
    let copy_cond = client.copy_plan(&Path::from_string("a".to_string()), &path, true);
    assert!(!copy_cond.idempotent);
}

#[test]
fn put_fills_default_content_type() {
    let client = test_client();
    let path = Path::from_string("obj".to_string());
    let payload = PutPayload::from_vec(vec![1, 2, 3]);
    let req = client
        .put_plan(
            &path,
            payload,
            PutOptions {
                mode: PutMode::Overwrite,
                attributes: Attributes::new(),
                extensions: http::Extensions::new(),
            },
        )
        .unwrap();
    assert_eq!(header(&req.headers, "content-type"), Some("application/octet-stream"));
    assert_eq!(header(&req.headers, "content-length"), Some("3"));
}

#[test]
fn attributes_translate_to_headers() {
    let client = test_client();
    let path = Path::from_string("obj".to_string());
    let mut attributes = Attributes::new();
    attributes.push(Attribute::CacheControl, "max-age=60".to_string());
    attributes.push(Attribute::ContentType, "text/plain".to_string());
    attributes.push(Attribute::Metadata("owner".to_string()), "me".to_string());
    let req = client
        .put_plan(
            &path,
            PutPayload::new(),
            PutOptions { mode: PutMode::Overwrite, attributes, extensions: http::Extensions::new() },
        )
        .unwrap();
    assert_eq!(header(&req.headers, "cache-control"), Some("max-age=60"));
    assert_eq!(header(&req.headers, "content-type"), Some("text/plain"));
    assert_eq!(header(&req.headers, "x-goog-meta-owner"), Some("me"));
}

#[test]
fn put_success_reads_etag_and_version() {
    let client = test_client();
    let path = Path::from_string("obj".to_string());
    let head = ResponseHead {
        status: 200,
        headers: vec![
            ("etag".to_string(), "\"abc\"".to_string()),
            ("x-goog-generation".to_string(), "7".to_string()),
        ],
    };
    let r = client.put_finish(&PutMode::Overwrite, SendOutcome::Sent(head), &path).unwrap();
    assert_eq!(r.e_tag.as_deref(), Some("\"abc\""));
    assert_eq!(r.version.as_deref(), Some("7"));
}

#[test]
fn put_success_without_etag_is_metadata_error() {
    let client = test_client();
    let path = Path::from_string("obj".to_string());
    let head = ResponseHead { status: 200, headers: vec![] };
    let r = client.put_finish(&PutMode::Overwrite, SendOutcome::Sent(head), &path);
    assert_eq!(r.unwrap_err(), Error::Metadata { path: "obj".to_string() });
}

#[test]
fn part_plan_uses_one_based_numbers() {
    let client = test_client();
    let path = Path::from_string("obj".to_string());
    let p0 = client.put_part_plan(&path, &"sess".to_string(), 0, PutPayload::new());
    assert_eq!(query(&p0.query, "partNumber"), Some("1"));
    assert_eq!(query(&p0.query, "uploadId"), Some("sess"));
    let p9 = client.put_part_plan(&path, &"sess".to_string(), 9, PutPayload::new());
    assert_eq!(query(&p9.query, "partNumber"), Some("10"));
}

#[test]
fn part_number_depends_only_on_index_not_upload_order() {
    let client = test_client();
    let path = Path::from_string("obj".to_string());
    // Upload in the order 2, 0, 1: each plan still addresses its own slot.
    let in_order: Vec<String> = (0..3usize)
        .map(|i| {
            query(
                &client.put_part_plan(&path, &"s".to_string(), i, PutPayload::new()).query,
                "partNumber",
            )
            .unwrap()
            .to_string()
        })
        .collect();
    let shuffled: Vec<(usize, String)> = [2usize, 0, 1]
        .iter()
        .map(|&i| {
            (
                i,
                query(
                    &client.put_part_plan(&path, &"s".to_string(), i, PutPayload::new()).query,
                    "partNumber",
                )
                .unwrap()
                .to_string(),
            )
        })
        .collect();
    for (i, num) in shuffled {
        assert_eq!(num, in_order[i]);
    }
}

#[test]
fn zero_part_completion_equals_empty_overwrite_put() {
    let client = test_client();
    let path = Path::from_string("obj".to_string());
    let plan = client.multipart_complete_plan(&path, &"sess".to_string(), &vec![]);
    match plan {
        CompletePlan::Fallback { cleanup, put } => {
            assert_eq!(cleanup.method, HttpMethod::Delete);
            assert_eq!(query(&cleanup.query, "uploadId"), Some("sess"));
            let direct = client
                .put_plan(&path, PutPayload::new(), PutOptions::default())
                .unwrap();
            assert_eq!(put.method, direct.method);
            assert_eq!(put.url, direct.url);
            assert_eq!(put.headers, direct.headers);
            assert_eq!(put.query, direct.query);
            assert_eq!(put.idempotent, direct.idempotent);
            assert!(put.payload.is_some());
            assert_eq!(put.payload.as_ref().unwrap().data, Vec::<u8>::new());
        }
        CompletePlan::Direct(_) => panic!("zero parts must fall back"),
    }
}

#[test]
fn conditional_copy_already_exists_keyed_by_destination() {
    let client = test_client();
    let from = Path::from_string("src".to_string());
    let to = Path::from_string("dst".to_string());
    let plan = client.copy_plan(&from, &to, true);
    assert_eq!(header(&plan.headers, "x-goog-if-generation-match"), Some("0"));
    assert_eq!(header(&plan.headers, "x-goog-copy-source"), Some("my%2Dbucket/src"));
    let r = client.copy_finish(SendOutcome::Failed(Some(412)), &from, &to, true);
    assert_eq!(r.unwrap_err(), Error::AlreadyExists { path: "dst".to_string() });
    let ok = client.copy_finish(
        SendOutcome::Sent(ResponseHead { status: 200, headers: vec![] }),
        &from,
        &to,
        true,
    );
    assert!(ok.is_ok());
}

#[test]
fn unconditional_copy_has_no_precondition_header() {
    let client = test_client();
    let from = Path::from_string("src".to_string());
    let to = Path::from_string("dst".to_string());
    let plan = client.copy_plan(&from, &to, false);
    assert_eq!(header(&plan.headers, "x-goog-if-generation-match"), None);
    assert_eq!(header(&plan.headers, "content-length"), Some("0"));
}

#[test]
fn unconditional_copy_precondition_stays_generic() {
    // Only the conditional copy reinterprets a 412 as "already exists"; an
    // unconditional copy surfaces it as a generic precondition failure,
    // keyed (like other passthrough copy errors) by the encoded source.
    let client = test_client();
    let from = Path::from_string("src".to_string());
    let to = Path::from_string("dst".to_string());
    let r = client.copy_finish(SendOutcome::Failed(Some(412)), &from, &to, false);
    assert_eq!(r.unwrap_err(), Error::Precondition { path: "src".to_string() });
    let r404 = client.copy_finish(SendOutcome::Failed(Some(404)), &from, &to, true);
    assert_eq!(r404.unwrap_err(), Error::NotFound { path: "src".to_string() });
}

#[test]
fn get_plan_options() {
    let client = test_client();
    let path = Path::from_string("obj".to_string());
    let opts = GetOptions {
        head: true,
        version: Some("5".to_string()),
        if_match: Some("\"e\"".to_string()),
        if_none_match: None,
        if_modified_since: None,
        if_unmodified_since: None,
        range: Some(GetRange { start: 0, end: 100 }),
        extensions: http::Extensions::new(),
    };
    let req = client.get_plan(&path, opts);
    assert_eq!(req.method, HttpMethod::Head);
    assert_eq!(query(&req.query, "generation"), Some("5"));
    assert_eq!(header(&req.headers, "if-match"), Some("\"e\""));
    assert_eq!(header(&req.headers, "range"), Some("bytes=0-99"));
    assert!(req.idempotent);
}

#[test]
fn get_finish_requires_metadata_headers() {
    let client = test_client();
    let path = Path::from_string("obj".to_string());
    let incomplete = ResponseHead {
        status: 200,
        headers: vec![("etag".to_string(), "\"e\"".to_string())],
    };
    let r = client.get_finish(SendOutcome::Sent(incomplete), &path);
    assert_eq!(r.unwrap_err(), Error::Metadata { path: "obj".to_string() });
    let complete = ResponseHead {
        status: 200,
        headers: vec![
            ("etag".to_string(), "\"e\"".to_string()),
            ("last-modified".to_string(), "Tue, 01 Jan 2030 00:00:00 GMT".to_string()),
        ],
    };
    assert!(client.get_finish(SendOutcome::Sent(complete), &path).is_ok());
    let failed = client.get_finish(SendOutcome::Failed(Some(500)), &path);
    assert_eq!(
        failed.unwrap_err(),
        Error::GetRequest { path: "obj".to_string(), status: Some(500) }
    );
}

#[test]
fn list_plan_query_assembly() {
    let client = test_client();
    let opts = PaginatedListOptions {
        delimiter: Some("/".to_string()),
        page_token: Some("tok".to_string()),
        max_keys: Some(25),
        offset: Some("after".to_string()),
        extensions: http::Extensions::new(),
    };
    let req = client.list_plan(Some("photos/"), opts);
    assert_eq!(req.method, HttpMethod::Get);
    assert_eq!(req.url, "https://storage.example.com/my%2Dbucket");
    assert_eq!(
        req.query,
        vec![
            ("list-type".to_string(), "2".to_string()),
            ("delimiter".to_string(), "/".to_string()),
            ("prefix".to_string(), "photos/".to_string()),
            ("continuation-token".to_string(), "tok".to_string()),
            ("start-after".to_string(), "after".to_string()),
            ("max-keys".to_string(), "25".to_string()),
        ]
    );
    assert!(req.idempotent);
}

#[test]
fn delete_plan_is_minimal() {
    let client = test_client();
    let path = Path::from_string("obj".to_string());
    let req = client.delete_plan(&path);
    assert_eq!(req.method, HttpMethod::Delete);
    assert!(req.headers.is_empty());
    assert!(req.query.is_empty());
    let r = client.delete_finish(SendOutcome::Failed(Some(404)), &path);
    assert_eq!(r.unwrap_err(), Error::NotFound { path: "obj".to_string() });
}

#[test]
fn anonymous_mode_skips_credential() {
    let config = GoogleCloudStorageConfig::new(
        "https://storage.example.com".to_string(),
        "b".to_string(),
        RetryConfig { max_retries: 1, retry_timeout_secs: 5 },
        ClientOptions::new(),
        true,
    );
    assert!(!config.wants_credential());
    let authed = GoogleCloudStorageConfig::new(
        "https://storage.example.com".to_string(),
        "b".to_string(),
        RetryConfig { max_retries: 1, retry_timeout_secs: 5 },
        ClientOptions::new(),
        false,
    );
    assert!(authed.wants_credential());
}

#[test]
fn path_url_is_unencoded() {
    let client = test_client();
    let path = Path::from_string("a/b c".to_string());
    assert_eq!(client.config().path_url(&path), "https://storage.example.com/my-bucket/a/b c");
}

#[test]
fn with_extensions_keeps_the_request_observables() {
    let client = test_client();
    let path = Path::from_string("obj".to_string());
    let req = client
        .request(HttpMethod::Put, &path)
        .header("x-goog-meta-k", "v")
        .idempotent(true);
    let before_headers = req.headers.clone();
    let mut extensions = http::Extensions::new();
    extensions.insert(7u32);
    let req = req.with_extensions(extensions);
    assert_eq!(req.headers, before_headers);
    assert!(req.idempotent);
    assert_eq!(req.extensions.get::<u32>(), Some(&7));
}

#[test]
fn transport_failure_without_status_keeps_the_path() {
    let client = test_client();
    let path = Path::from_string("p".to_string());
    let r = client.put_finish(&PutMode::Overwrite, SendOutcome::Failed(None), &path);
    assert_eq!(r.unwrap_err(), Error::Request { path: "p".to_string(), status: None });
}

#[test]
fn errors_expose_their_path_context() {
    let e = Error::AlreadyExists { path: "dst".to_string() };
    assert_eq!(e.path().map(|p| p.as_str()), Some("dst"));
    assert_eq!(Error::MissingVersion.path(), None);
}
