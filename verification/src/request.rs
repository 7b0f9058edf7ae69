//! The single-use request builder: assembles one HTTP request as plain data
//! (method, URL, headers, query, payload, idempotency marker), and the
//! interpretation of a transport outcome back into the error taxonomy.

use vstd::prelude::*;
use crate::types::{Path, PutPayload, Attributes, Attribute, PutResult};
use crate::config::GcpCredential;
use crate::errors::Error;
use crate::strutil::{push_str_chars, chars_to_string, dec_string, dec_of, str_eq};

verus! {

/// The HTTP method of a planned request.
#[derive(Debug, Clone, Copy, PartialEq, Eq, Structural)]
pub enum HttpMethod {
    Get,
    Put,
    Post,
    Delete,
    Head,
}

/// Header or query pairs as character sequences.
pub open spec fn pairs_view(hs: Seq<(String, String)>) -> Seq<(Seq<char>, Seq<char>)> {
    hs.map_values(|p: (String, String)| (p.0@, p.1@))
}

/// The payload bytes of a planned request, if any.
pub open spec fn payload_view(p: Option<PutPayload>) -> Option<Seq<u8>> {
    match p {
        Some(pl) => Some(pl@),
        None => None,
    }
}

/// A single-use builder for one HTTP request. It is consumed by the terminal
/// operation that hands it to the transport; the transport executes it
/// through the external retry engine, honoring `idempotent`.
#[derive(Debug)]
pub struct Request {
    pub path: Path,
    pub method: HttpMethod,
    pub url: String,
    pub headers: Vec<(String, String)>,
    pub query: Vec<(String, String)>,
    pub payload: Option<PutPayload>,
    /// True only when re-issuing the identical request is safe.
    pub idempotent: bool,
    /// Opaque caller extension data, passed through untouched.
    pub extensions: http::Extensions,
}

/// Everything observable of two planned requests is equal (the opaque
/// extension data excepted).
pub open spec fn plans_match(a: &Request, b: &Request) -> bool {
    &&& a.path@ == b.path@
    &&& a.method == b.method
    &&& a.url@ == b.url@
    &&& pairs_view(a.headers@) == pairs_view(b.headers@)
    &&& pairs_view(a.query@) == pairs_view(b.query@)
    &&& payload_view(a.payload) == payload_view(b.payload)
    &&& a.idempotent == b.idempotent
}

impl Request {
    /// A fresh builder: no headers, no query, no payload, not idempotent.
    pub fn new(path: Path, method: HttpMethod, url: String, extensions: http::Extensions) -> (r:
        Self)
        ensures
            r.path@ == path@,
            r.method == method,
            r.url@ == url@,
            r.headers@.len() == 0,
            r.query@.len() == 0,
            r.payload is None,
            !r.idempotent,
    {
        Request {
            path,
            method,
            url,
            headers: Vec::new(),
            query: Vec::new(),
            payload: None,
            idempotent: false,
            extensions,
        }
    }

    /// Attaches one raw header.
    pub fn header(self, k: &str, v: &str) -> (r: Self)
        ensures
            pairs_view(r.headers@) == pairs_view(self.headers@).push((k@, v@)),
            r.path@ == self.path@,
            r.method == self.method,
            r.url@ == self.url@,
            r.query == self.query,
            r.payload == self.payload,
            r.idempotent == self.idempotent,
    {
        let mut headers = self.headers;
        headers.push((k.to_owned(), v.to_owned()));
        proof {
            assert(pairs_view(headers@) =~= pairs_view(headers@.drop_last()).push((k@, v@)));
        }
        Request { headers, ..self }
    }

    /// Attaches one query parameter.
    pub fn query_pair(self, k: &str, v: &str) -> (r: Self)
        ensures
            pairs_view(r.query@) == pairs_view(self.query@).push((k@, v@)),
            r.path@ == self.path@,
            r.method == self.method,
            r.url@ == self.url@,
            r.headers == self.headers,
            r.payload == self.payload,
            r.idempotent == self.idempotent,
    {
        let mut query = self.query;
        query.push((k.to_owned(), v.to_owned()));
        proof {
            assert(pairs_view(query@) =~= pairs_view(query@.drop_last()).push((k@, v@)));
        }
        Request { query, ..self }
    }

    /// Sets the idempotency marker: the external retry engine may re-issue
    /// the request after a transient failure only when this is true.
    pub fn idempotent(self, idempotent: bool) -> (r: Self)
        ensures
            r.idempotent == idempotent,
            r.path@ == self.path@,
            r.method == self.method,
            r.url@ == self.url@,
            r.headers == self.headers,
            r.query == self.query,
            r.payload == self.payload,
    {
        Request { idempotent, ..self }
    }

    /// Attaches the payload and its `Content-Length` header.
    pub fn with_payload(self, payload: PutPayload) -> (r: Self)
        ensures
            pairs_view(r.headers@) == pairs_view(self.headers@).push(
                ("content-length"@, dec_of(payload@.len() as nat)),
            ),
            payload_view(r.payload) == Some(payload@),
            r.path@ == self.path@,
            r.method == self.method,
            r.url@ == self.url@,
            r.query == self.query,
            r.idempotent == self.idempotent,
    {
        let len = payload.content_length();
        let lenstr = dec_string(len as u64);
        let with_header = self.header("content-length", lenstr.as_str());
        Request { payload: Some(payload), ..with_header }
    }

    /// Attaches a raw body without touching the headers; used for the
    /// completion document, whose length the transport frames itself.
    pub fn with_body(self, payload: PutPayload) -> (r: Self)
        ensures
            payload_view(r.payload) == Some(payload@),
            r.path@ == self.path@,
            r.method == self.method,
            r.url@ == self.url@,
            r.headers == self.headers,
            r.query == self.query,
            r.idempotent == self.idempotent,
    {
        Request { payload: Some(payload), ..self }
    }

    /// Replaces the caller extension data; everything observable is kept.
    pub fn with_extensions(self, extensions: http::Extensions) -> (r: Self)
        ensures
            r.path@ == self.path@,
            r.method == self.method,
            r.url@ == self.url@,
            r.headers == self.headers,
            r.query == self.query,
            r.payload == self.payload,
            r.idempotent == self.idempotent,
    {
        Request { extensions, ..self }
    }

    /// Attaches bearer authentication when a credential is present; a
    /// missing credential means "send unauthenticated" (anonymous mode).
    pub fn with_bearer_auth(self, credential: Option<&GcpCredential>) -> (r: Self)
        ensures
            match credential {
                Some(c) => pairs_view(r.headers@) == pairs_view(self.headers@).push(
                    ("authorization"@, "Bearer "@ + c.bearer@),
                ),
                None => r.headers == self.headers,
            },
            r.path@ == self.path@,
            r.method == self.method,
            r.url@ == self.url@,
            r.query == self.query,
            r.payload == self.payload,
            r.idempotent == self.idempotent,
    {
        match credential {
            Some(c) => {
                let mut value: Vec<char> = Vec::new();
                push_str_chars(&mut value, "Bearer ");
                push_str_chars(&mut value, c.bearer.as_str());
                let vs = chars_to_string(&value);
                self.header("authorization", vs.as_str())
            },
            None => self,
        }
    }

    /// Applies an attribute mapping to headers, one to one, and injects the
    /// content-type default when no attribute set one.
    pub fn with_attributes(self, attributes: Attributes, default_content_type: Option<&String>)
        -> (r: Self)
        ensures
            pairs_view(r.headers@) == pairs_view(self.headers@) + attrs_view(attributes.pairs@) + (
            if attributes.spec_has_content_type() {
                Seq::<(Seq<char>, Seq<char>)>::empty()
            } else {
                seq![
                    ("content-type"@, match default_content_type {
                        Some(ct) => ct@,
                        None => "application/octet-stream"@,
                    }),
                ]
            }),
            r.path@ == self.path@,
            r.method == self.method,
            r.url@ == self.url@,
            r.query == self.query,
            r.payload == self.payload,
            r.idempotent == self.idempotent,
    {
        let mut req = self;
        let ghost orig = pairs_view(req.headers@);
        let ghost gpath = req.path@;
        let ghost gmethod = req.method;
        let ghost gurl = req.url@;
        let ghost gquery = req.query;
        let ghost gpayload = req.payload;
        let ghost gidem = req.idempotent;
        let mut has_content_type = false;
        let mut i: usize = 0;
        let n = attributes.pairs.len();
        proof {
            assert(orig + attrs_view(attributes.pairs@.take(0)) =~= orig);
        }
        while i < n
            invariant
                n == attributes.pairs@.len(),
                i <= n,
                pairs_view(req.headers@) == orig + attrs_view(attributes.pairs@.take(i as int)),
                has_content_type == exists|k: int|
                    0 <= k < i && attributes.pairs@[k].0 is ContentType,
                req.path@ == gpath,
                req.method == gmethod,
                req.url@ == gurl,
                req.query == gquery,
                req.payload == gpayload,
                req.idempotent == gidem,
            decreases n - i,
        {
            let pair = &attributes.pairs[i];
            let found_content_type = match &pair.0 {
                Attribute::ContentType => true,
                _ => false,
            };
            req = match &pair.0 {
                Attribute::CacheControl => req.header("cache-control", pair.1.as_str()),
                Attribute::ContentDisposition => req.header(
                    "content-disposition",
                    pair.1.as_str(),
                ),
                Attribute::ContentEncoding => req.header("content-encoding", pair.1.as_str()),
                Attribute::ContentLanguage => req.header("content-language", pair.1.as_str()),
                Attribute::ContentType => req.header("content-type", pair.1.as_str()),
                Attribute::Metadata(suffix) => {
                    let mut key: Vec<char> = Vec::new();
                    push_str_chars(&mut key, "x-goog-meta-");
                    push_str_chars(&mut key, suffix.as_str());
                    let ks = chars_to_string(&key);
                    req.header(ks.as_str(), pair.1.as_str())
                },
            };
            if found_content_type {
                has_content_type = true;
            }
            proof {
                assert(attributes.pairs@.take(i + 1).drop_last() =~= attributes.pairs@.take(
                    i as int,
                ));
                assert(attributes.pairs@.take(i + 1).last() == attributes.pairs@[i as int]);
                assert(pairs_view(req.headers@) =~= orig + attrs_view(
                    attributes.pairs@.take(i + 1),
                ));
                if found_content_type {
                    assert(attributes.pairs@[i as int].0 is ContentType);
                }
            }
            i += 1;
        }
        proof {
            assert(attributes.pairs@.take(n as int) =~= attributes.pairs@);
        }
        if !has_content_type {
            let ct: &str = match default_content_type {
                Some(ct) => ct.as_str(),
                None => "application/octet-stream",
            };
            let with_ct = req.header("content-type", ct);
            proof {
                assert(pairs_view(with_ct.headers@) =~= orig + attrs_view(attributes.pairs@)
                    + seq![
                    ("content-type"@, match default_content_type {
                        Some(c) => c@,
                        None => "application/octet-stream"@,
                    }),
                ]);
            }
            with_ct
        } else {
            proof {
                assert(pairs_view(req.headers@) + Seq::<(Seq<char>, Seq<char>)>::empty()
                    =~= pairs_view(req.headers@));
            }
            req
        }
    }
}

/// How one attribute maps to a protocol header.
pub open spec fn attr_header_of(p: (Attribute, String)) -> (Seq<char>, Seq<char>) {
    match p.0 {
        Attribute::CacheControl => ("cache-control"@, p.1@),
        Attribute::ContentDisposition => ("content-disposition"@, p.1@),
        Attribute::ContentEncoding => ("content-encoding"@, p.1@),
        Attribute::ContentLanguage => ("content-language"@, p.1@),
        Attribute::ContentType => ("content-type"@, p.1@),
        Attribute::Metadata(suffix) => ("x-goog-meta-"@ + suffix@, p.1@),
    }
}

/// The headers an attribute mapping translates to, in order.
pub open spec fn attrs_view(pairs: Seq<(Attribute, String)>) -> Seq<(Seq<char>, Seq<char>)>
    decreases pairs.len(),
{
    if pairs.len() == 0 {
        Seq::<(Seq<char>, Seq<char>)>::empty()
    } else {
        attrs_view(pairs.drop_last()).push(attr_header_of(pairs.last()))
    }
}

/// The status line and headers of a transport response. Header names are as
/// the transport normalizes them: lowercase.
#[derive(Debug)]
pub struct ResponseHead {
    pub status: u16,
    pub headers: Vec<(String, String)>,
}

/// What the transport and retry engine hand back for one executed request:
/// either a success response, or a request-level failure with the final HTTP
/// status when one was received.
#[derive(Debug)]
pub enum SendOutcome {
    Sent(ResponseHead),
    Failed(Option<u16>),
}

/// The value of the first header with the given (lowercase) name.
pub open spec fn spec_header_value(hs: Seq<(String, String)>, name: Seq<char>) -> Option<Seq<char>>
    decreases hs.len(),
{
    if hs.len() == 0 {
        None
    } else if hs[0].0@ == name {
        Some(hs[0].1@)
    } else {
        spec_header_value(hs.drop_first(), name)
    }
}

/// Looks a header up by its exact (lowercase) name.
pub fn header_value<'a>(hs: &'a Vec<(String, String)>, name: &str) -> (r: Option<&'a String>)
    ensures
        spec_header_value(hs@, name@) == (match r {
            Some(v) => Some(v@),
            None => None::<Seq<char>>,
        }),
{
    let n = hs.len();
    let mut i: usize = 0;
    proof {
        assert(hs@.skip(0) =~= hs@);
    }
    while i < n
        invariant
            n == hs@.len(),
            i <= n,
            spec_header_value(hs@, name@) == spec_header_value(hs@.skip(i as int), name@),
        decreases n - i,
    {
        proof {
            assert(hs@.skip(i as int)[0] == hs@[i as int]);
            assert(hs@.skip(i as int).drop_first() =~= hs@.skip(i + 1));
        }
        if str_eq(hs[i].0.as_str(), name) {
            return Some(&hs[i].1);
        }
        i += 1;
    }
    None
}

/// How a request-level failure status is read back into the error taxonomy:
/// 404 not found, 304 not modified, 412 failed precondition, 409 already
/// exists; anything else keeps the operation's transport-error kind.
pub open spec fn is_classified(e: &Error, status: Option<u16>, path: Seq<char>, on_get: bool)
    -> bool {
    match status {
        Some(404u16) => e matches Error::NotFound { path: p } && p@ == path,
        Some(304u16) => e matches Error::NotModified { path: p } && p@ == path,
        Some(412u16) => e matches Error::Precondition { path: p } && p@ == path,
        Some(409u16) => e matches Error::AlreadyExists { path: p } && p@ == path,
        _ => {
            if on_get {
                e matches Error::GetRequest { path: p, status: s } && p@ == path && s == status
            } else {
                e matches Error::Request { path: p, status: s } && p@ == path && s == status
            }
        },
    }
}

/// Classifies a request-level failure against the target path.
pub fn classify_send_failure(status: Option<u16>, path: &Path, on_get: bool) -> (r: Error)
    ensures
        is_classified(&r, status, path@, on_get),
{
    let p = path.as_str().to_owned();
    match status {
        Some(404u16) => Error::NotFound { path: p },
        Some(304u16) => Error::NotModified { path: p },
        Some(412u16) => Error::Precondition { path: p },
        Some(409u16) => Error::AlreadyExists { path: p },
        _ => {
            if on_get {
                Error::GetRequest { path: p, status }
            } else {
                Error::Request { path: p, status }
            }
        },
    }
}

/// Interprets the transport outcome of a path-scoped request: a response
/// passes through, a failure is classified against the path.
pub fn finish_send(outcome: SendOutcome, path: &Path) -> (r: Result<ResponseHead, Error>)
    ensures
        match outcome {
            SendOutcome::Sent(_) => r is Ok,
            SendOutcome::Failed(status) => r matches Err(e) && is_classified(
                &e,
                status,
                path@,
                false,
            ),
        },
        r matches Ok(h) ==> outcome matches SendOutcome::Sent(h2) && h == h2,
{
    match outcome {
        SendOutcome::Sent(head) => Ok(head),
        SendOutcome::Failed(status) => Err(classify_send_failure(status, path, false)),
    }
}

pub open spec fn opt_str_view(o: Option<String>) -> Option<Seq<char>> {
    match o {
        Some(s) => Some(s@),
        None => None,
    }
}

/// Extracts the server-assigned identity of a written object from response
/// headers: the etag is required, the backend version header is optional.
pub fn get_put_result(head: &ResponseHead, version_header: &str, path: &Path) -> (r: Result<
    PutResult,
    Error,
>)
    ensures
        r is Ok <==> spec_header_value(head.headers@, "etag"@) is Some,
        r matches Ok(pr) ==> opt_str_view(pr.e_tag) == spec_header_value(head.headers@, "etag"@)
            && opt_str_view(pr.version) == spec_header_value(head.headers@, version_header@),
        r matches Err(e) ==> e matches Error::Metadata { path: p } && p@ == path@,
{
    let e_tag = match header_value(&head.headers, "etag") {
        Some(v) => v.clone(),
        None => {
            return Err(Error::Metadata { path: path.as_str().to_owned() });
        },
    };
    let version = match header_value(&head.headers, version_header) {
        Some(v) => Some(v.clone()),
        None => None,
    };
    Ok(PutResult { e_tag: Some(e_tag), version })
}

} // verus!
