use gcs_client::client::GoogleCloudStorageClient;
use gcs_client::config::{ClientOptions, GoogleCloudStorageConfig, RetryConfig};
use gcs_client::errors::Error;
use gcs_client::request::{ResponseHead, SendOutcome};
use gcs_client::types::{PartId, Path};
use gcs_client::xml::complete_multipart_body;

fn test_client() -> GoogleCloudStorageClient {
    let config = GoogleCloudStorageConfig::new(
        "https://storage.example.com".to_string(),
        "bucket".to_string(),
        RetryConfig { max_retries: 3, retry_timeout_secs: 30 },
        ClientOptions::new(),
        false,
    );
    GoogleCloudStorageClient::new(config)
}

#[test]
fn completion_document_lists_parts_in_order() {
    let parts = vec![
        PartId { content_id: "\"etag0\"".to_string() },
        PartId { content_id: "\"etag1\"".to_string() },
        PartId { content_id: "\"etag2\"".to_string() },
    ];
    let body = complete_multipart_body(&parts);
    assert_eq!(
        body,
        "<CompleteMultipartUpload>\
         <Part><ETag>\"etag0\"</ETag><PartNumber>1</PartNumber></Part>\
         <Part><ETag>\"etag1\"</ETag><PartNumber>2</PartNumber></Part>\
         <Part><ETag>\"etag2\"</ETag><PartNumber>3</PartNumber></Part>\
         </CompleteMultipartUpload>"
    );
}

#[test]
fn quoted_etag_survives_serialization() {
    // The serializer escapes a literal double quote as an entity; the
    // correction restores it, so the document carries the etag verbatim.
    let parts = vec![PartId { content_id: "\"abc\"".to_string() }];
    let body = complete_multipart_body(&parts);
    assert!(body.contains("<ETag>\"abc\"</ETag>"));
    assert!(!body.contains("&quot;"));
}

#[test]
fn ampersand_in_etag_stays_escaped() {
    let parts = vec![PartId { content_id: "a&b".to_string() }];
    let body = complete_multipart_body(&parts);
    assert!(body.contains("<ETag>a&amp;b</ETag>"));
}

#[test]
fn initiate_response_yields_upload_id() {
    let client = test_client();
    let body = "<?xml version=\"1.0\"?><InitiateMultipartUploadResult>\
                <Bucket>bucket</Bucket><Key>obj</Key>\
                <UploadId>sess+token/1</UploadId>\
                </InitiateMultipartUploadResult>";
    assert_eq!(client.multipart_initiate_finish(body).unwrap(), "sess+token/1");
}

#[test]
fn initiate_response_without_id_is_invalid() {
    let client = test_client();
    let r = client.multipart_initiate_finish("<InitiateMultipartUploadResult/>");
    assert_eq!(r.unwrap_err(), Error::InvalidPutResponse);
}

#[test]
fn complete_response_yields_etag_and_version() {
    let client = test_client();
    let head = ResponseHead {
        status: 200,
        headers: vec![("x-goog-generation".to_string(), "99".to_string())],
    };
    let body = "<CompleteMultipartUploadResult>\
                <ETag>&quot;final&quot;</ETag>\
                </CompleteMultipartUploadResult>";
    let r = client.multipart_complete_finish(&head, body).unwrap();
    assert_eq!(r.e_tag.as_deref(), Some("\"final\""));
    assert_eq!(r.version.as_deref(), Some("99"));
}

#[test]
fn complete_response_without_etag_is_invalid() {
    let client = test_client();
    let head = ResponseHead { status: 200, headers: vec![] };
    let r = client.multipart_complete_finish(&head, "<CompleteMultipartUploadResult/>");
    assert_eq!(r.unwrap_err(), Error::InvalidMultipartResponse);
}

#[test]
fn cleanup_plan_is_tagged_with_session() {
    let client = test_client();
    let path = Path::from_string("obj".to_string());
    let req = client.multipart_cleanup_plan(&path, &"sess".to_string());
    assert_eq!(
        req.query,
        vec![("uploadId".to_string(), "sess".to_string())]
    );
    assert!(req.idempotent);
}

#[test]
fn initiate_plan_carries_uploads_marker() {
    let client = test_client();
    let path = Path::from_string("obj".to_string());
    let req = client.multipart_initiate_plan(&path, Default::default());
    assert_eq!(req.query, vec![("uploads".to_string(), "".to_string())]);
    let cl: Vec<&str> = req
        .headers
        .iter()
        .filter(|(k, _)| k == "content-length")
        .map(|(_, v)| v.as_str())
        .collect();
    assert_eq!(cl, vec!["0"]);
}

#[test]
fn list_response_decodes_entries_prefixes_and_token() {
    let client = test_client();
    let body = "<ListBucketResult>\
        <Contents><Key>photos/a.jpg</Key>\
        <LastModified>2030-01-01T00:00:00Z</LastModified>\
        <ETag>&quot;e1&quot;</ETag><Size>1048576</Size></Contents>\
        <Contents><Key>photos/b &amp; c.jpg</Key>\
        <LastModified>2030-01-02T00:00:00Z</LastModified>\
        <Size>0</Size></Contents>\
        <CommonPrefixes><Prefix>photos/albums/</Prefix></CommonPrefixes>\
        <NextContinuationToken>tok123</NextContinuationToken>\
        </ListBucketResult>";
    let page = client.list_finish(body).unwrap();
    assert_eq!(page.result.objects.len(), 2);
    assert_eq!(page.result.objects[0].location, "photos/a.jpg");
    assert_eq!(page.result.objects[0].size, 1048576);
    assert_eq!(page.result.objects[0].e_tag.as_deref(), Some("\"e1\""));
    assert_eq!(page.result.objects[1].location, "photos/b & c.jpg");
    assert_eq!(page.result.objects[1].size, 0);
    assert_eq!(page.result.objects[1].e_tag, None);
    assert_eq!(page.result.common_prefixes, vec!["photos/albums/".to_string()]);
    assert_eq!(page.page_token.as_deref(), Some("tok123"));
}

#[test]
fn list_response_with_bad_size_is_invalid() {
    let client = test_client();
    let body = "<ListBucketResult><Contents><Key>k</Key>\
        <LastModified>2030-01-01T00:00:00Z</LastModified>\
        <Size>big</Size></Contents></ListBucketResult>";
    assert_eq!(client.list_finish(body).unwrap_err(), Error::InvalidListResponse);
}

#[test]
fn pagination_follows_tokens_to_the_full_listing() {
    let client = test_client();
    let page_one = "<ListBucketResult>\
        <Contents><Key>a</Key><LastModified>t</LastModified><Size>1</Size></Contents>\
        <Contents><Key>b</Key><LastModified>t</LastModified><Size>2</Size></Contents>\
        <NextContinuationToken>t2</NextContinuationToken></ListBucketResult>";
    let page_two = "<ListBucketResult>\
        <Contents><Key>c</Key><LastModified>t</LastModified><Size>3</Size></Contents>\
        </ListBucketResult>";
    let unpaginated = "<ListBucketResult>\
        <Contents><Key>a</Key><LastModified>t</LastModified><Size>1</Size></Contents>\
        <Contents><Key>b</Key><LastModified>t</LastModified><Size>2</Size></Contents>\
        <Contents><Key>c</Key><LastModified>t</LastModified><Size>3</Size></Contents>\
        </ListBucketResult>";
    // Follow tokens as an external caller would, counting calls.
    let pages = [page_one, page_two];
    let mut collected: Vec<String> = Vec::new();
    let mut token: Option<String> = None;
    let mut calls = 0usize;
    loop {
        assert!(calls < pages.len(), "token chain must terminate");
        let page = client.list_finish(pages[calls]).unwrap();
        calls += 1;
        collected.extend(page.result.objects.iter().map(|o| o.location.clone()));
        token = page.page_token;
        if token.is_none() {
            break;
        }
    }
    assert_eq!(calls, 2);
    let full = client.list_finish(unpaginated).unwrap();
    let full_keys: Vec<String> =
        full.result.objects.iter().map(|o| o.location.clone()).collect();
    assert_eq!(collected, full_keys);
    assert!(full.page_token.is_none());
}

#[test]
fn sign_blob_body_is_base64_json() {
    let client = test_client();
    assert_eq!(client.sign_blob_body("hello"), "{\"payload\":\"aGVsbG8=\"}");
}

#[test]
fn sign_blob_url_templates_the_identity() {
    let client = test_client();
    assert_eq!(
        client.sign_blob_url("svc@example.iam.gserviceaccount.com"),
        "https://iamcredentials.googleapis.com/v1/projects/-/serviceAccounts/\
         svc@example.iam.gserviceaccount.com:signBlob"
    );
}

#[test]
fn sign_blob_response_roundtrip() {
    let client = test_client();
    let body = "{ \"keyId\": \"k1\", \"signedBlob\": \"aGVsbG8=\" }";
    assert_eq!(client.parse_sign_blob_response(body).unwrap(), "aGVsbG8=");
    // hex of the decoded bytes of "hello"
    assert_eq!(client.sign_blob_finish(body).unwrap(), "68656c6c6f");
}

#[test]
fn sign_blob_bad_base64_is_signature_error() {
    let client = test_client();
    assert_eq!(
        client.decode_signed_blob("!!!").unwrap_err(),
        Error::InvalidSignBlobSignature
    );
}

#[test]
fn sign_blob_missing_field_is_invalid_response() {
    let client = test_client();
    assert_eq!(
        client.parse_sign_blob_response("{}").unwrap_err(),
        Error::InvalidSignBlobResponse
    );
}

#[test]
fn sign_blob_plan_is_idempotent_json_post() {
    let client = test_client();
    let plan = client.sign_blob_plan("hello", "svc@example.iam.gserviceaccount.com");
    assert_eq!(plan.method, gcs_client::request::HttpMethod::Post);
    assert_eq!(
        plan.url,
        "https://iamcredentials.googleapis.com/v1/projects/-/serviceAccounts/\
         svc@example.iam.gserviceaccount.com:signBlob"
    );
    assert_eq!(
        plan.headers,
        vec![("content-type".to_string(), "application/json".to_string())]
    );
    assert!(plan.query.is_empty());
    assert!(plan.idempotent);
    assert_eq!(
        plan.payload.as_ref().unwrap().data,
        b"{\"payload\":\"aGVsbG8=\"}".to_vec()
    );
}
