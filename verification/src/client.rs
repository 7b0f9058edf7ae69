//! The operation surface: put with conditional-write semantics, the
//! multipart lifecycle, copy, delete, get, paginated list, and the delegated
//! blob-signing flow.
//!
//! Each operation is a pure *plan* builder producing a [`Request`], and a
//! *finish* step that reads the transport outcome back into results and the
//! error taxonomy. The transport loop (credential fetch, send through the
//! retry engine, body read) lives outside and exchanges plain values.

use vstd::prelude::*;
use vstd::utf8::encode_utf8;
use crate::types::{
    Path, PutPayload, PutMode, PutOptions, PutMultipartOpts, PutResult, PartId, MultipartId,
    GetOptions, ListResult, PaginatedListResult, PaginatedListOptions,
};
use crate::config::{GoogleCloudStorageConfig, GcpCredential};
use crate::errors::Error;
use crate::request::{
    Request, HttpMethod, ResponseHead, SendOutcome, pairs_view, payload_view, attrs_view,
    is_classified, classify_send_failure, get_put_result, spec_header_value, header_value,
    opt_str_view,
};
use crate::encoding::{pe_of, percent_encode_str, base64_encode, base64_decode, hex_of, hex_chars};
use crate::strutil::{
    push_str_chars, push_all, chars_to_string, chars_of, dec_of, spec_find, find,
};
use crate::xml::{
    unquot, complete_doc, etags_of, complete_multipart_body, spec_tag_text, tag_text,
    spec_list_parse, parse_list_response, oms_view, strs_view,
};
use crate::httpext::new_extensions;
use crate::config::ClientOptions;

verus! {

/// The client over one bucket endpoint.
#[derive(Debug)]
pub struct GoogleCloudStorageClient {
    pub config: GoogleCloudStorageConfig,
    pub bucket_name_encoded: String,
    /// A fixed per-page cap applied to every list request, set at
    /// construction time.
    pub max_list_results: Option<String>,
}

/// The encoded object URL `{base}/{encoded bucket}/{encoded path}`.
pub open spec fn spec_object_url(c: &GoogleCloudStorageClient, path: Seq<char>) -> Seq<char> {
    c.config.base_url@ + seq!['/'] + c.bucket_name_encoded@ + seq!['/'] + pe_of(encode_utf8(path))
}

/// The default content type injected when neither the attributes nor the
/// client options name one.
pub open spec fn spec_default_ct(options: &ClientOptions) -> Seq<char> {
    match options.default_content_type {
        Some(ct) => ct@,
        None => "application/octet-stream"@,
    }
}

/// The shape of the put plan an empty-payload unconditional overwrite
/// produces (the zero-part multipart fallback produces exactly this).
pub open spec fn overwrite_empty_put_shape(req: &Request, c: &GoogleCloudStorageClient, path: Seq<char>) -> bool {
    &&& req.method == HttpMethod::Put
    &&& req.path@ == path
    &&& req.url@ == spec_object_url(c, path)
    &&& pairs_view(req.headers@) == seq![("content-length"@, dec_of(0))] + seq![
        ("content-type"@, spec_default_ct(&c.config.client_options)),
    ]
    &&& pairs_view(req.query@) == Seq::<(Seq<char>, Seq<char>)>::empty()
    &&& payload_view(req.payload) == Some(Seq::<u8>::empty())
    &&& req.idempotent
}

impl GoogleCloudStorageClient {
    /// Builds the client, percent-encoding the bucket name once.
    pub fn new(config: GoogleCloudStorageConfig) -> (r: Self)
        ensures
            r.config == config,
            r.bucket_name_encoded@ == pe_of(encode_utf8(config.bucket_name@)),
            r.max_list_results is None,
    {
        let bucket_name_encoded = percent_encode_str(config.bucket_name.as_str());
        GoogleCloudStorageClient { config, bucket_name_encoded, max_list_results: None }
    }

    pub fn config(&self) -> (r: &GoogleCloudStorageConfig)
        ensures
            r == &self.config,
    {
        &self.config
    }

    /// The retry policy the external retry engine is to honor.
    pub fn retry_config(&self) -> (r: &crate::config::RetryConfig)
        ensures
            r == &self.config.retry_config,
    {
        &self.config.retry_config
    }

    /// The encoded object URL of a path.
    pub fn object_url(&self, path: &Path) -> (r: String)
        ensures
            r@ == spec_object_url(self, path@),
    {
        let mut out: Vec<char> = Vec::new();
        push_str_chars(&mut out, self.config.base_url.as_str());
        out.push('/');
        push_str_chars(&mut out, self.bucket_name_encoded.as_str());
        out.push('/');
        let encoded = percent_encode_str(path.as_str());
        push_str_chars(&mut out, encoded.as_str());
        proof {
            assert(out@ =~= spec_object_url(self, path@));
        }
        chars_to_string(&out)
    }

    /// A fresh request against one object.
    pub fn request(&self, method: HttpMethod, path: &Path) -> (r: Request)
        ensures
            r.path@ == path@,
            r.method == method,
            r.url@ == spec_object_url(self, path@),
            r.headers@.len() == 0,
            r.query@.len() == 0,
            r.payload is None,
            !r.idempotent,
    {
        let url = self.object_url(path);
        Request::new(path.dup(), method, url, new_extensions())
    }

    /// Plans a put. `Overwrite` is idempotent; `Create` carries the
    /// "generation must equal zero" precondition; `Update` carries the
    /// expected generation and fails locally, before any network work, when
    /// the caller supplied no version.
    pub fn put_plan(&self, path: &Path, payload: PutPayload, opts: PutOptions) -> (r: Result<
        Request,
        Error,
    >)
        ensures
            r is Err <==> (opts.mode matches PutMode::Update(v) && v.version is None),
            r matches Err(e) ==> e == Error::MissingVersion,
            r matches Ok(req) ==> {
                &&& req.method == HttpMethod::Put
                &&& req.path@ == path@
                &&& req.url@ == spec_object_url(self, path@)
                &&& payload_view(req.payload) == Some(payload@)
                &&& pairs_view(req.query@) == Seq::<(Seq<char>, Seq<char>)>::empty()
                &&& req.idempotent == (opts.mode is Overwrite)
                &&& pairs_view(req.headers@) == seq![
                    ("content-length"@, dec_of(payload@.len() as nat)),
                ] + attrs_view(opts.attributes.pairs@) + (
                if opts.attributes.spec_has_content_type() {
                    Seq::<(Seq<char>, Seq<char>)>::empty()
                } else {
                    seq![("content-type"@, spec_default_ct(&self.config.client_options))]
                }) + (match opts.mode {
                    PutMode::Overwrite => Seq::<(Seq<char>, Seq<char>)>::empty(),
                    PutMode::Create => seq![("x-goog-if-generation-match"@, "0"@)],
                    PutMode::Update(v) => seq![
                        ("x-goog-if-generation-match"@, v.version->0@),
                    ],
                })
            },
            opts.mode is Overwrite && opts.attributes.pairs@.len() == 0 && payload@.len() == 0
                ==> (r matches Ok(req) && overwrite_empty_put_shape(&req, self, path@)),
    {
        let builder = self.request(HttpMethod::Put, path).with_payload(payload).with_attributes(
            opts.attributes,
            self.config.client_options.default_content_type.as_ref(),
        ).with_extensions(opts.extensions);
        let req = match &opts.mode {
            PutMode::Overwrite => builder.idempotent(true),
            PutMode::Create => builder.header("x-goog-if-generation-match", "0"),
            PutMode::Update(v) => {
                let etag = match &v.version {
                    Some(e) => e,
                    None => {
                        return Err(Error::MissingVersion);
                    },
                };
                builder.header("x-goog-if-generation-match", etag.as_str())
            },
        };
        proof {
            assert(pairs_view(req.headers@) =~= seq![
                ("content-length"@, dec_of(payload@.len() as nat)),
            ] + attrs_view(opts.attributes.pairs@) + (
            if opts.attributes.spec_has_content_type() {
                Seq::<(Seq<char>, Seq<char>)>::empty()
            } else {
                seq![("content-type"@, spec_default_ct(&self.config.client_options))]
            }) + (match opts.mode {
                PutMode::Overwrite => Seq::<(Seq<char>, Seq<char>)>::empty(),
                PutMode::Create => seq![("x-goog-if-generation-match"@, "0"@)],
                PutMode::Update(v) => seq![("x-goog-if-generation-match"@, v.version->0@)],
            }));
            assert(pairs_view(req.query@) =~= Seq::<(Seq<char>, Seq<char>)>::empty());
            if opts.mode is Overwrite && opts.attributes.pairs@.len() == 0 && payload@.len()
                == 0 {
                assert(payload@ =~= Seq::<u8>::empty());
                assert(pairs_view(req.headers@) =~= seq![("content-length"@, dec_of(0))] + seq![
                    ("content-type"@, spec_default_ct(&self.config.client_options)),
                ]);
            }
        }
        Ok(req)
    }

    /// Reads a put outcome back: a create-mode precondition failure is
    /// reinterpreted as "already exists"; everything else passes through,
    /// and on success the written object's identity comes from the headers.
    pub fn put_finish(&self, mode: &PutMode, outcome: SendOutcome, path: &Path) -> (r: Result<
        PutResult,
        Error,
    >)
        ensures
            outcome matches SendOutcome::Failed(s) ==> r is Err,
            outcome matches SendOutcome::Failed(s) && mode is Create && s == Some(412u16) ==> (
            r matches Err(e) && e matches Error::AlreadyExists { path: p } && p@ == path@),
            outcome matches SendOutcome::Failed(s) ==> (!(mode is Create && s == Some(412u16))
                ==> (r matches Err(e) && is_classified(&e, s, path@, false))),
            outcome matches SendOutcome::Sent(h) ==> {
                &&& r is Ok <==> spec_header_value(h.headers@, "etag"@) is Some
                &&& (r matches Ok(pr) ==> opt_str_view(pr.e_tag) == spec_header_value(
                    h.headers@,
                    "etag"@,
                ) && opt_str_view(pr.version) == spec_header_value(
                    h.headers@,
                    "x-goog-generation"@,
                ))
                &&& (r matches Err(e) ==> e matches Error::Metadata { path: p } && p@ == path@)
            },
    {
        match outcome {
            SendOutcome::Sent(head) => get_put_result(&head, "x-goog-generation", path),
            SendOutcome::Failed(status) => {
                let err = classify_send_failure(status, path, false);
                let is_create = match mode {
                    PutMode::Create => true,
                    _ => false,
                };
                match err {
                    Error::Precondition { path: p } => {
                        if is_create {
                            Err(Error::AlreadyExists { path: p })
                        } else {
                            Err(Error::Precondition { path: p })
                        }
                    },
                    other => Err(other),
                }
            },
        }
    }

    /// Plans one part upload: the 1-based part number is derived from the
    /// caller's zero-based index, and the request is idempotent, since part
    /// number and session id fully determine server-side placement.
    pub fn put_part_plan(&self, path: &Path, upload_id: &MultipartId, part_idx: usize, data: PutPayload)
        -> (r: Request)
        requires
            part_idx < usize::MAX,
        ensures
            r.method == HttpMethod::Put,
            r.path@ == path@,
            r.url@ == spec_object_url(self, path@),
            payload_view(r.payload) == Some(data@),
            pairs_view(r.headers@) == seq![("content-length"@, dec_of(data@.len() as nat))],
            pairs_view(r.query@) == seq![
                ("partNumber"@, dec_of((part_idx + 1) as nat)),
                ("uploadId"@, upload_id@),
            ],
            r.idempotent,
    {
        let number = crate::strutil::dec_string((part_idx as u64) + 1);
        let r = self.request(HttpMethod::Put, path).with_payload(data).query_pair(
            "partNumber",
            number.as_str(),
        ).query_pair("uploadId", upload_id.as_str()).idempotent(true);
        proof {
            assert(pairs_view(r.headers@) =~= seq![("content-length"@, dec_of(data@.len() as nat))]);
            assert(pairs_view(r.query@) =~= seq![
                ("partNumber"@, dec_of((part_idx + 1) as nat)),
                ("uploadId"@, upload_id@),
            ]);
        }
        r
    }

    /// Builds the part identifier from a part upload's result. The etag is
    /// owed by the protocol on every part upload; its absence is a
    /// programming-contract violation, not a recoverable error, so callers
    /// must not pass such a result here.
    pub fn part_from_put_result(&self, result: PutResult) -> (r: PartId)
        requires
            result.e_tag is Some,
        ensures
            r.content_id@ == result.e_tag->0@,
    {
        match result.e_tag {
            Some(content_id) => PartId { content_id },
            None => vstd::pervasive::unreached(),
        }
    }

    /// Plans a multipart initiation: a POST with the distinguished
    /// empty-value `uploads` query marker and an empty body.
    pub fn multipart_initiate_plan(&self, path: &Path, opts: PutMultipartOpts) -> (r: Request)
        ensures
            r.method == HttpMethod::Post,
            r.path@ == path@,
            r.url@ == spec_object_url(self, path@),
            r.payload is None,
            pairs_view(r.headers@) == attrs_view(opts.attributes.pairs@) + (
            if opts.attributes.spec_has_content_type() {
                Seq::<(Seq<char>, Seq<char>)>::empty()
            } else {
                seq![("content-type"@, spec_default_ct(&self.config.client_options))]
            }) + seq![("content-length"@, "0"@)],
            pairs_view(r.query@) == seq![("uploads"@, ""@)],
            !r.idempotent,
    {
        let r = self.request(HttpMethod::Post, path).with_attributes(
            opts.attributes,
            self.config.client_options.default_content_type.as_ref(),
        ).with_extensions(opts.extensions).header("content-length", "0").query_pair(
            "uploads",
            "",
        );
        proof {
            assert(pairs_view(r.query@) =~= seq![("uploads"@, ""@)]);
        }
        r
    }

    /// Reads the session id out of an initiation response body.
    pub fn multipart_initiate_finish(&self, body: &str) -> (r: Result<MultipartId, Error>)
        ensures
            r is Ok <==> spec_tag_text(body@, "<UploadId>"@, "</UploadId>"@) is Some,
            r matches Ok(id) ==> Some(id@) == spec_tag_text(body@, "<UploadId>"@, "</UploadId>"@),
            r matches Err(e) ==> e == Error::InvalidPutResponse,
    {
        let chars = chars_of(body);
        let open = chars_of("<UploadId>");
        let close = chars_of("</UploadId>");
        match tag_text(&chars, &open, &close) {
            Some(v) => Ok(chars_to_string(&v)),
            None => Err(Error::InvalidPutResponse),
        }
    }

    /// Plans a session cleanup: a DELETE tagged with the session id;
    /// best-effort and idempotent, used for explicit abort and as part of
    /// the zero-part completion fallback.
    pub fn multipart_cleanup_plan(&self, path: &Path, multipart_id: &MultipartId) -> (r: Request)
        ensures
            r.method == HttpMethod::Delete,
            r.path@ == path@,
            r.url@ == spec_object_url(self, path@),
            r.payload is None,
            pairs_view(r.headers@) == seq![
                ("content-type"@, "application/octet-stream"@),
                ("content-length"@, "0"@),
            ],
            pairs_view(r.query@) == seq![("uploadId"@, multipart_id@)],
            r.idempotent,
    {
        let r = self.request(HttpMethod::Delete, path).header(
            "content-type",
            "application/octet-stream",
        ).header("content-length", "0").query_pair("uploadId", multipart_id.as_str()).idempotent(
            true,
        );
        proof {
            assert(pairs_view(r.headers@) =~= seq![
                ("content-type"@, "application/octet-stream"@),
                ("content-length"@, "0"@),
            ]);
            assert(pairs_view(r.query@) =~= seq![("uploadId"@, multipart_id@)]);
        }
        r
    }
}

} // verus!

verus! {

/// The two ways a completion proceeds: the zero-part fallback (clean the
/// session up, then an ordinary empty overwrite put), or a direct POST of
/// the completion document.
#[derive(Debug)]
pub enum CompletePlan {
    Fallback { cleanup: Request, put: Request },
    Direct(Request),
}

/// The shape of a session-cleanup plan.
pub open spec fn cleanup_plan_shape(
    req: &Request,
    c: &GoogleCloudStorageClient,
    path: Seq<char>,
    id: Seq<char>,
) -> bool {
    &&& req.method == HttpMethod::Delete
    &&& req.path@ == path
    &&& req.url@ == spec_object_url(c, path)
    &&& req.payload is None
    &&& pairs_view(req.headers@) == seq![
        ("content-type"@, "application/octet-stream"@),
        ("content-length"@, "0"@),
    ]
    &&& pairs_view(req.query@) == seq![("uploadId"@, id)]
    &&& req.idempotent
}

impl GoogleCloudStorageClient {
    /// Plans a completion. With zero parts the backend forbids completion,
    /// so the session is cleaned up and an ordinary empty-payload overwrite
    /// put is performed instead; otherwise the ordered parts are serialized
    /// into the corrected completion document and POSTed under the session
    /// id.
    pub fn multipart_complete_plan(
        &self,
        path: &Path,
        multipart_id: &MultipartId,
        completed_parts: &Vec<PartId>,
    ) -> (r: CompletePlan)
        ensures
            completed_parts@.len() == 0 <==> r is Fallback,
            r matches CompletePlan::Fallback { cleanup, put } ==> cleanup_plan_shape(
                &cleanup,
                self,
                path@,
                multipart_id@,
            ) && overwrite_empty_put_shape(&put, self, path@),
            r matches CompletePlan::Direct(req) ==> {
                &&& req.method == HttpMethod::Post
                &&& req.path@ == path@
                &&& req.url@ == spec_object_url(self, path@)
                &&& pairs_view(req.headers@) == Seq::<(Seq<char>, Seq<char>)>::empty()
                &&& pairs_view(req.query@) == seq![("uploadId"@, multipart_id@)]
                &&& payload_view(req.payload) == Some(
                    encode_utf8(unquot(complete_doc(etags_of(completed_parts@)))),
                )
                &&& req.idempotent
            },
    {
        if completed_parts.len() == 0 {
            let cleanup = self.multipart_cleanup_plan(path, multipart_id);
            let put = match self.put_plan(path, PutPayload::new(), PutOptions::default()) {
                Ok(p) => p,
                Err(_) => vstd::pervasive::unreached(),
            };
            CompletePlan::Fallback { cleanup, put }
        } else {
            let body = complete_multipart_body(completed_parts);
            let bytes = vstd::slice::slice_to_vec(body.as_str().as_bytes());
            let req = self.request(HttpMethod::Post, path).query_pair(
                "uploadId",
                multipart_id.as_str(),
            ).with_body(PutPayload::from_vec(bytes)).idempotent(true);
            proof {
                assert(pairs_view(req.headers@) =~= Seq::<(Seq<char>, Seq<char>)>::empty());
                assert(pairs_view(req.query@) =~= seq![("uploadId"@, multipart_id@)]);
            }
            CompletePlan::Direct(req)
        }
    }

    /// Reads a completion response: the version comes from the headers, the
    /// final etag from the response document; a decode failure is fatal.
    pub fn multipart_complete_finish(&self, head: &ResponseHead, body: &str) -> (r: Result<
        PutResult,
        Error,
    >)
        ensures
            r is Ok <==> spec_tag_text(body@, "<ETag>"@, "</ETag>"@) is Some,
            r matches Ok(pr) ==> opt_str_view(pr.e_tag) == spec_tag_text(
                body@,
                "<ETag>"@,
                "</ETag>"@,
            ) && opt_str_view(pr.version) == spec_header_value(
                head.headers@,
                "x-goog-generation"@,
            ),
            r matches Err(e) ==> e == Error::InvalidMultipartResponse,
    {
        let version = match header_value(&head.headers, "x-goog-generation") {
            Some(v) => Some(v.clone()),
            None => None,
        };
        let chars = chars_of(body);
        let open = chars_of("<ETag>");
        let close = chars_of("</ETag>");
        match tag_text(&chars, &open, &close) {
            Some(v) => Ok(PutResult { e_tag: Some(chars_to_string(&v)), version }),
            None => Err(Error::InvalidMultipartResponse),
        }
    }

    /// Plans a server-side copy: a PUT to the destination carrying the
    /// copy-source header. With `if_not_exists` the "generation must equal
    /// zero" precondition is attached and the request is not idempotent,
    /// since the precondition's meaning changes after the first success.
    pub fn copy_plan(&self, from: &Path, to: &Path, if_not_exists: bool) -> (r: Request)
        ensures
            r.method == HttpMethod::Put,
            r.path@ == to@,
            r.url@ == spec_object_url(self, to@),
            r.payload is None,
            pairs_view(r.headers@) == seq![
                (
                    "x-goog-copy-source"@,
                    self.bucket_name_encoded@ + seq!['/'] + pe_of(encode_utf8(from@)),
                ),
            ] + (if if_not_exists {
                seq![("x-goog-if-generation-match"@, "0"@)]
            } else {
                Seq::<(Seq<char>, Seq<char>)>::empty()
            }) + seq![("content-length"@, "0"@)],
            pairs_view(r.query@) == Seq::<(Seq<char>, Seq<char>)>::empty(),
            r.idempotent == !if_not_exists,
    {
        let mut source: Vec<char> = Vec::new();
        push_str_chars(&mut source, self.bucket_name_encoded.as_str());
        source.push('/');
        let encoded_from = percent_encode_str(from.as_str());
        push_str_chars(&mut source, encoded_from.as_str());
        proof {
            assert(source@ =~= self.bucket_name_encoded@ + seq!['/'] + pe_of(
                encode_utf8(from@),
            ));
        }
        let source_str = chars_to_string(&source);
        let mut req = self.request(HttpMethod::Put, to).header(
            "x-goog-copy-source",
            source_str.as_str(),
        );
        if if_not_exists {
            req = req.header("x-goog-if-generation-match", "0");
        }
        let r = req.header("content-length", "0").idempotent(!if_not_exists);
        proof {
            assert(pairs_view(r.headers@) =~= seq![
                (
                    "x-goog-copy-source"@,
                    self.bucket_name_encoded@ + seq!['/'] + pe_of(encode_utf8(from@)),
                ),
            ] + (if if_not_exists {
                seq![("x-goog-if-generation-match"@, "0"@)]
            } else {
                Seq::<(Seq<char>, Seq<char>)>::empty()
            }) + seq![("content-length"@, "0"@)]);
            assert(pairs_view(r.query@) =~= Seq::<(Seq<char>, Seq<char>)>::empty());
        }
        r
    }

    /// Reads a copy outcome: on a *conditional* copy a precondition failure
    /// means the destination already exists, keyed by the destination path;
    /// every other failure — an unconditional copy's 412 included — is
    /// classified against the (encoded) source.
    pub fn copy_finish(&self, outcome: SendOutcome, from: &Path, to: &Path, if_not_exists: bool)
        -> (r: Result<(), Error>)
        ensures
            r is Ok <==> outcome is Sent,
            outcome matches SendOutcome::Failed(s) ==> (if if_not_exists && s == Some(412u16) {
                r matches Err(e) && e matches Error::AlreadyExists { path: p } && p@ == to@
            } else {
                r matches Err(e) && is_classified(&e, s, pe_of(encode_utf8(from@)), false)
            }),
    {
        match outcome {
            SendOutcome::Sent(_) => Ok(()),
            SendOutcome::Failed(status) => {
                let is_precondition = match status {
                    Some(s) => s == 412u16,
                    None => false,
                };
                if if_not_exists && is_precondition {
                    Err(Error::AlreadyExists { path: to.as_str().to_owned() })
                } else {
                    let encoded_from = Path::from_string(percent_encode_str(from.as_str()));
                    Err(classify_send_failure(status, &encoded_from, false))
                }
            },
        }
    }

    /// Plans a delete: a single DELETE with no body and no special headers.
    pub fn delete_plan(&self, path: &Path) -> (r: Request)
        ensures
            r.method == HttpMethod::Delete,
            r.path@ == path@,
            r.url@ == spec_object_url(self, path@),
            r.payload is None,
            r.headers@.len() == 0,
            r.query@.len() == 0,
            !r.idempotent,
    {
        self.request(HttpMethod::Delete, path)
    }

    /// Reads a delete outcome.
    pub fn delete_finish(&self, outcome: SendOutcome, path: &Path) -> (r: Result<(), Error>)
        ensures
            r is Ok <==> outcome is Sent,
            outcome matches SendOutcome::Failed(s) ==> (r matches Err(e) && is_classified(
                &e,
                s,
                path@,
                false,
            )),
    {
        match outcome {
            SendOutcome::Sent(_) => Ok(()),
            SendOutcome::Failed(status) => Err(classify_send_failure(status, path, false)),
        }
    }
}

} // verus!

use crate::types::GetRange;
use crate::strutil::{dec_chars, dec_string};

verus! {

/// The header an optional conditional value translates to.
pub open spec fn opt_hdr(name: Seq<char>, v: Option<String>) -> Seq<(Seq<char>, Seq<char>)> {
    match v {
        Some(s) => seq![(name, s@)],
        None => Seq::<(Seq<char>, Seq<char>)>::empty(),
    }
}

/// The range header of an optional byte range (inclusive last byte on the
/// wire).
pub open spec fn range_hdr(r: Option<GetRange>) -> Seq<(Seq<char>, Seq<char>)> {
    match r {
        Some(g) => seq![
            ("range"@, "bytes="@ + dec_of(g.start as nat) + seq!['-'] + dec_of((g.end - 1) as nat)),
        ],
        None => Seq::<(Seq<char>, Seq<char>)>::empty(),
    }
}

impl GoogleCloudStorageClient {
    /// Plans a get (or head): the requested version becomes a query
    /// parameter, the conditional and range options become headers. Reads
    /// are idempotent.
    pub fn get_plan(&self, path: &Path, options: GetOptions) -> (r: Request)
        requires
            options.range matches Some(g) ==> g.start < g.end,
        ensures
            r.method == (if options.head {
                HttpMethod::Head
            } else {
                HttpMethod::Get
            }),
            r.path@ == path@,
            r.url@ == spec_object_url(self, path@),
            r.payload is None,
            pairs_view(r.query@) == (match options.version {
                Some(v) => seq![("generation"@, v@)],
                None => Seq::<(Seq<char>, Seq<char>)>::empty(),
            }),
            pairs_view(r.headers@) == opt_hdr("if-match"@, options.if_match) + opt_hdr(
                "if-none-match"@,
                options.if_none_match,
            ) + opt_hdr("if-modified-since"@, options.if_modified_since) + opt_hdr(
                "if-unmodified-since"@,
                options.if_unmodified_since,
            ) + range_hdr(options.range),
            r.idempotent,
    {
        let GetOptions {
            head,
            version,
            if_match,
            if_none_match,
            if_modified_since,
            if_unmodified_since,
            range,
            extensions,
        } = options;
        let method = if head {
            HttpMethod::Head
        } else {
            HttpMethod::Get
        };
        let mut req = self.request(method, path).with_extensions(extensions);
        match &version {
            Some(v) => {
                req = req.query_pair("generation", v.as_str());
            },
            None => {},
        }
        match &if_match {
            Some(v) => {
                req = req.header("if-match", v.as_str());
            },
            None => {},
        }
        match &if_none_match {
            Some(v) => {
                req = req.header("if-none-match", v.as_str());
            },
            None => {},
        }
        match &if_modified_since {
            Some(v) => {
                req = req.header("if-modified-since", v.as_str());
            },
            None => {},
        }
        match &if_unmodified_since {
            Some(v) => {
                req = req.header("if-unmodified-since", v.as_str());
            },
            None => {},
        }
        match &range {
            Some(g) => {
                let mut value: Vec<char> = Vec::new();
                push_str_chars(&mut value, "bytes=");
                let start_digits = dec_chars(g.start);
                push_all(&mut value, &start_digits);
                value.push('-');
                let end_digits = dec_chars(g.end - 1);
                push_all(&mut value, &end_digits);
                proof {
                    assert(value@ =~= "bytes="@ + dec_of(g.start as nat) + seq!['-'] + dec_of(
                        (g.end - 1) as nat,
                    ));
                }
                let vs = chars_to_string(&value);
                req = req.header("range", vs.as_str());
            },
            None => {},
        }
        let r = req.idempotent(true);
        proof {
            assert(pairs_view(r.headers@) =~= opt_hdr("if-match"@, if_match) + opt_hdr(
                "if-none-match"@,
                if_none_match,
            ) + opt_hdr("if-modified-since"@, if_modified_since) + opt_hdr(
                "if-unmodified-since"@,
                if_unmodified_since,
            ) + range_hdr(range));
            assert(pairs_view(r.query@) =~= (match version {
                Some(v) => seq![("generation"@, v@)],
                None => Seq::<(Seq<char>, Seq<char>)>::empty(),
            }));
        }
        r
    }

    /// Reads a get outcome: the response must carry the required etag and
    /// last-modified metadata, whose absence is a metadata error; a failure
    /// is classified against the path.
    pub fn get_finish(&self, outcome: SendOutcome, path: &Path) -> (r: Result<ResponseHead, Error>)
        ensures
            outcome matches SendOutcome::Sent(h) ==> {
                &&& (r is Ok <==> (spec_header_value(h.headers@, "etag"@) is Some
                    && spec_header_value(h.headers@, "last-modified"@) is Some))
                &&& (r matches Ok(h2) ==> h2 == h)
                &&& (r matches Err(e) ==> e matches Error::Metadata { path: p } && p@ == path@)
            },
            outcome matches SendOutcome::Failed(s) ==> (r matches Err(e) && is_classified(
                &e,
                s,
                path@,
                true,
            )),
    {
        match outcome {
            SendOutcome::Sent(head) => {
                let has_etag = match header_value(&head.headers, "etag") {
                    Some(_) => true,
                    None => false,
                };
                let has_last_modified = match header_value(&head.headers, "last-modified") {
                    Some(_) => true,
                    None => false,
                };
                if has_etag && has_last_modified {
                    Ok(head)
                } else {
                    Err(Error::Metadata { path: path.as_str().to_owned() })
                }
            },
            SendOutcome::Failed(status) => Err(classify_send_failure(status, path, true)),
        }
    }

    /// Plans one page of a bucket listing: a GET against the bucket root
    /// with the fixed listing-version marker and the optional delimiter,
    /// prefix, continuation token, per-client cap, offset and per-call cap.
    pub fn list_plan(&self, prefix: Option<&str>, opts: PaginatedListOptions) -> (r: Request)
        ensures
            r.method == HttpMethod::Get,
            r.url@ == self.config.base_url@ + seq!['/'] + self.bucket_name_encoded@,
            r.payload is None,
            r.headers@.len() == 0,
            pairs_view(r.query@) == seq![("list-type"@, "2"@)] + opt_hdr(
                "delimiter"@,
                opts.delimiter,
            ) + (match prefix {
                Some(p) => seq![("prefix"@, p@)],
                None => Seq::<(Seq<char>, Seq<char>)>::empty(),
            }) + opt_hdr("continuation-token"@, opts.page_token) + opt_hdr(
                "max-keys"@,
                self.max_list_results,
            ) + opt_hdr("start-after"@, opts.offset) + (match opts.max_keys {
                Some(mk) => seq![("max-keys"@, dec_of(mk as nat))],
                None => Seq::<(Seq<char>, Seq<char>)>::empty(),
            }),
            r.idempotent,
    {
        let PaginatedListOptions { delimiter, page_token, max_keys, offset, extensions } = opts;
        let mut url: Vec<char> = Vec::new();
        push_str_chars(&mut url, self.config.base_url.as_str());
        url.push('/');
        push_str_chars(&mut url, self.bucket_name_encoded.as_str());
        proof {
            assert(url@ =~= self.config.base_url@ + seq!['/'] + self.bucket_name_encoded@);
        }
        let url_str = chars_to_string(&url);
        let mut req = Request::new(
            Path::from_string(String::new()),
            HttpMethod::Get,
            url_str,
            extensions,
        ).query_pair("list-type", "2");
        match &delimiter {
            Some(d) => {
                req = req.query_pair("delimiter", d.as_str());
            },
            None => {},
        }
        match prefix {
            Some(p) => {
                req = req.query_pair("prefix", p);
            },
            None => {},
        }
        match &page_token {
            Some(t) => {
                req = req.query_pair("continuation-token", t.as_str());
            },
            None => {},
        }
        match &self.max_list_results {
            Some(m) => {
                req = req.query_pair("max-keys", m.as_str());
            },
            None => {},
        }
        match &offset {
            Some(o) => {
                req = req.query_pair("start-after", o.as_str());
            },
            None => {},
        }
        match &max_keys {
            Some(mk) => {
                let ms = dec_string(*mk);
                req = req.query_pair("max-keys", ms.as_str());
            },
            None => {},
        }
        let r = req.idempotent(true);
        proof {
            assert(pairs_view(r.query@) =~= seq![("list-type"@, "2"@)] + opt_hdr(
                "delimiter"@,
                delimiter,
            ) + (match prefix {
                Some(p) => seq![("prefix"@, p@)],
                None => Seq::<(Seq<char>, Seq<char>)>::empty(),
            }) + opt_hdr("continuation-token"@, page_token) + opt_hdr(
                "max-keys"@,
                self.max_list_results,
            ) + opt_hdr("start-after"@, offset) + (match max_keys {
                Some(mk) => seq![("max-keys"@, dec_of(mk as nat))],
                None => Seq::<(Seq<char>, Seq<char>)>::empty(),
            }));
        }
        r
    }

    /// Decodes one listing page: the entries and common prefixes in
    /// document order, and the next continuation token iff one is present
    /// (present iff more pages exist, by the protocol).
    pub fn list_finish(&self, body: &str) -> (r: Result<PaginatedListResult, Error>)
        ensures
            r is Ok <==> spec_list_parse(body@) is Some,
            r matches Ok(p) ==> spec_list_parse(body@) == Some(
                (
                    oms_view(p.result.objects@),
                    strs_view(p.result.common_prefixes@),
                    opt_str_view(p.page_token),
                ),
            ),
            r matches Err(e) ==> e == Error::InvalidListResponse,
    {
        match parse_list_response(body) {
            Ok((objects, common_prefixes, page_token)) => Ok(
                PaginatedListResult {
                    result: ListResult { objects, common_prefixes },
                    page_token,
                },
            ),
            Err(e) => Err(e),
        }
    }
}

} // verus!

use crate::encoding::base64_of;

verus! {

pub open spec fn is_json_ws(c: char) -> bool {
    c == ' ' || c == '\t' || c == '\n' || c == '\r'
}

/// The first non-whitespace position at or after `i`.
pub open spec fn spec_skip_ws(s: Seq<char>, i: int) -> int
    decreases s.len() - i + 1,
{
    if 0 <= i < s.len() && is_json_ws(s[i]) {
        spec_skip_ws(s, i + 1)
    } else {
        i
    }
}

/// The signature string of a sign-blob response document: the quoted value
/// following the first occurrence of the quoted `signedBlob` key. The scan
/// assumes that text does not occur inside an earlier string value — the
/// signing service's responses carry it only as a key.
pub open spec fn spec_sign_response(s: Seq<char>) -> Option<Seq<char>> {
    match spec_find(s, "\"signedBlob\""@, 0) {
        None => None,
        Some(i) => {
            let j = spec_skip_ws(s, i + "\"signedBlob\""@.len());
            if j < s.len() && s[j] == ':' {
                let k = spec_skip_ws(s, j + 1);
                if k < s.len() && s[k] == '"' {
                    match spec_find(s, seq!['"'], k + 1) {
                        None => None,
                        Some(m) => Some(s.subrange(k + 1, m)),
                    }
                } else {
                    None
                }
            } else {
                None
            }
        },
    }
}

/// Advances over whitespace.
fn skip_ws(s: &Vec<char>, from: usize) -> (r: usize)
    requires
        from <= s@.len(),
    ensures
        from <= r <= s@.len(),
        r as int == spec_skip_ws(s@, from as int),
{
    let n = s.len();
    let mut i = from;
    while i < n && (s[i] == ' ' || s[i] == '\t' || s[i] == '\n' || s[i] == '\r')
        invariant
            n == s@.len(),
            from <= i <= n,
            spec_skip_ws(s@, from as int) == spec_skip_ws(s@, i as int),
        decreases n - i,
    {
        i += 1;
    }
    i
}

impl GoogleCloudStorageClient {
    /// The fixed external signing-service URL, templated with the signing
    /// identity.
    pub fn sign_blob_url(&self, client_email: &str) -> (r: String)
        ensures
            r@ == "https://iamcredentials.googleapis.com/v1/projects/-/serviceAccounts/"@
                + client_email@ + ":signBlob"@,
    {
        let mut out: Vec<char> = Vec::new();
        push_str_chars(
            &mut out,
            "https://iamcredentials.googleapis.com/v1/projects/-/serviceAccounts/",
        );
        push_str_chars(&mut out, client_email);
        push_str_chars(&mut out, ":signBlob");
        proof {
            assert(out@
                =~= "https://iamcredentials.googleapis.com/v1/projects/-/serviceAccounts/"@
                + client_email@ + ":signBlob"@);
        }
        chars_to_string(&out)
    }

    /// The JSON body of a sign-blob request: the input base64-encoded under
    /// the `payload` key. Base64 output needs no JSON escaping.
    pub fn sign_blob_body(&self, string_to_sign: &str) -> (r: String)
        ensures
            r@ == "{\"payload\":\""@ + base64_of(encode_utf8(string_to_sign@)) + "\"}"@,
    {
        let bytes = vstd::slice::slice_to_vec(string_to_sign.as_bytes());
        let encoded = base64_encode(&bytes);
        let mut out: Vec<char> = Vec::new();
        push_str_chars(&mut out, "{\"payload\":\"");
        push_str_chars(&mut out, encoded.as_str());
        push_str_chars(&mut out, "\"}");
        proof {
            assert(out@ =~= "{\"payload\":\""@ + base64_of(encode_utf8(string_to_sign@))
                + "\"}"@);
        }
        chars_to_string(&out)
    }

    /// Plans the sign-blob call: a POST of the JSON body to the signing
    /// endpoint under the signing identity, marked idempotent — signing the
    /// same payload twice yields the same signature.
    pub fn sign_blob_plan(&self, string_to_sign: &str, client_email: &str) -> (r: Request)
        ensures
            r.method == HttpMethod::Post,
            r.url@ == "https://iamcredentials.googleapis.com/v1/projects/-/serviceAccounts/"@
                + client_email@ + ":signBlob"@,
            pairs_view(r.headers@) == seq![("content-type"@, "application/json"@)],
            pairs_view(r.query@) == Seq::<(Seq<char>, Seq<char>)>::empty(),
            payload_view(r.payload) == Some(
                encode_utf8(
                    "{\"payload\":\""@ + base64_of(encode_utf8(string_to_sign@)) + "\"}"@,
                ),
            ),
            r.idempotent,
    {
        let url = self.sign_blob_url(client_email);
        let body = self.sign_blob_body(string_to_sign);
        let bytes = vstd::slice::slice_to_vec(body.as_str().as_bytes());
        let r = Request::new(
            Path::from_string(String::new()),
            HttpMethod::Post,
            url,
            new_extensions(),
        ).header("content-type", "application/json").with_body(PutPayload::from_vec(bytes))
            .idempotent(true);
        proof {
            assert(pairs_view(r.headers@) =~= seq![("content-type"@, "application/json"@)]);
            assert(pairs_view(r.query@) =~= Seq::<(Seq<char>, Seq<char>)>::empty());
        }
        r
    }

    /// Extracts the `signedBlob` value from a sign-blob response document.
    pub fn parse_sign_blob_response(&self, body: &str) -> (r: Result<String, Error>)
        ensures
            r is Ok <==> spec_sign_response(body@) is Some,
            r matches Ok(sig) ==> Some(sig@) == spec_sign_response(body@),
            r matches Err(e) ==> e == Error::InvalidSignBlobResponse,
    {
        let chars = chars_of(body);
        let key = chars_of("\"signedBlob\"");
        let n = chars.len();
        let i = match find(&chars, &key, 0) {
            None => {
                return Err(Error::InvalidSignBlobResponse);
            },
            Some(i) => i,
        };
        let j = skip_ws(&chars, i + key.len());
        if j >= n {
            return Err(Error::InvalidSignBlobResponse);
        }
        if chars[j] != ':' {
            return Err(Error::InvalidSignBlobResponse);
        }
        let k = skip_ws(&chars, j + 1);
        if k >= n {
            return Err(Error::InvalidSignBlobResponse);
        }
        if chars[k] != '"' {
            return Err(Error::InvalidSignBlobResponse);
        }
        let mut quote: Vec<char> = Vec::new();
        quote.push('"');
        proof {
            assert(quote@ =~= seq!['"']);
        }
        let m = match find(&chars, &quote, k + 1) {
            None => {
                return Err(Error::InvalidSignBlobResponse);
            },
            Some(m) => m,
        };
        let value = crate::strutil::copy_range(&chars, k + 1, m);
        Ok(chars_to_string(&value))
    }

    /// Decodes the base64 signature of a sign-blob response and hex-encodes
    /// it for the caller. It succeeds exactly on valid encodings, and then
    /// returns the hex of the encoded bytes; a decode failure is fatal.
    pub fn decode_signed_blob(&self, signed_blob: &str) -> (r: Result<String, Error>)
        ensures
            r is Ok <==> exists|b: Seq<u8>| signed_blob@ == base64_of(b),
            r matches Ok(hex) ==> forall|b: Seq<u8>|
                signed_blob@ == base64_of(b) ==> hex@ == hex_of(b),
            r matches Err(e) ==> e == Error::InvalidSignBlobSignature,
    {
        match base64_decode(signed_blob) {
            Some(bytes) => {
                let hex = hex_chars(&bytes);
                proof {
                    assert(signed_blob@ == base64_of(bytes@));
                }
                Ok(chars_to_string(&hex))
            },
            None => Err(Error::InvalidSignBlobSignature),
        }
    }

    /// Reads a sign-blob response body to the hex signature: extract the
    /// `signedBlob` value, base64-decode it, hex-encode the bytes. Success
    /// is owed exactly when the document carries a `signedBlob` value that
    /// is a valid base64 encoding.
    pub fn sign_blob_finish(&self, body: &str) -> (r: Result<String, Error>)
        ensures
            r is Ok <==> (spec_sign_response(body@) matches Some(sig) && exists|b: Seq<u8>|
                sig == base64_of(b)),
            r matches Ok(hex) ==> spec_sign_response(body@) matches Some(sig) && forall|
                b: Seq<u8>,
            | sig == base64_of(b) ==> hex@ == hex_of(b),
            spec_sign_response(body@) is None ==> r == Err::<String, Error>(
                Error::InvalidSignBlobResponse,
            ),
            r matches Err(e) ==> (e == Error::InvalidSignBlobResponse || e
                == Error::InvalidSignBlobSignature),
    {
        let signed_blob = match self.parse_sign_blob_response(body) {
            Ok(v) => v,
            Err(e) => {
                return Err(e);
            },
        };
        self.decode_signed_blob(signed_blob.as_str())
    }
}

} // verus!
