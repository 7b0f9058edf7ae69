//! Plain data model of the operation surface: paths, payloads, write modes,
//! attributes, and the results the operations hand back.

use vstd::prelude::*;
use crate::httpext::new_extensions;

verus! {

/// Opaque, immutable, hierarchical string identifier for an object. URLs are
/// derived from it by percent-encoding.
#[derive(Debug, Clone)]
pub struct Path {
    pub raw: String,
}

impl View for Path {
    type V = Seq<char>;

    open spec fn view(&self) -> Seq<char> {
        self.raw@
    }
}

impl Path {
    pub fn from_string(raw: String) -> (r: Self)
        ensures
            r@ == raw@,
    {
        Path { raw }
    }

    pub fn as_str(&self) -> (r: &str)
        ensures
            r@ == self@,
    {
        self.raw.as_str()
    }

    /// A fresh copy whose characters are the same.
    pub fn dup(&self) -> (r: Self)
        ensures
            r@ == self@,
    {
        Path { raw: self.raw.clone() }
    }
}

/// Byte content to upload; may be empty. The content length drives the
/// `Content-Length` header.
#[derive(Debug, Clone)]
pub struct PutPayload {
    pub data: Vec<u8>,
}

impl View for PutPayload {
    type V = Seq<u8>;

    open spec fn view(&self) -> Seq<u8> {
        self.data@
    }
}

impl PutPayload {
    /// An empty payload.
    pub fn new() -> (r: Self)
        ensures
            r@ == Seq::<u8>::empty(),
    {
        PutPayload { data: Vec::new() }
    }

    pub fn from_vec(data: Vec<u8>) -> (r: Self)
        ensures
            r@ == data@,
    {
        PutPayload { data }
    }

    pub fn content_length(&self) -> (r: usize)
        ensures
            r == self@.len(),
    {
        self.data.len()
    }

    pub fn as_bytes(&self) -> (r: &Vec<u8>)
        ensures
            r@ == self@,
    {
        &self.data
    }

    pub fn into_vec(self) -> (r: Vec<u8>)
        ensures
            r@ == self@,
    {
        self.data
    }
}

/// Expected identity of the object a conditional update replaces.
#[derive(Debug, Clone)]
pub struct UpdateVersion {
    /// The expected etag, if the caller tracked one.
    pub e_tag: Option<String>,
    /// The expected version; required for a conditional update.
    pub version: Option<String>,
}

/// How a put interacts with existing content.
#[derive(Debug, Clone)]
pub enum PutMode {
    /// Replace unconditionally; safe to retry.
    Overwrite,
    /// Fail if the object already exists, encoded as "generation must equal
    /// zero".
    Create,
    /// Fail unless the current version equals the expected one; the absence
    /// of an expected version is a local hard error.
    Update(UpdateVersion),
}

/// One attribute of an object, translated one-to-one to a protocol header.
#[derive(Debug, Clone)]
pub enum Attribute {
    CacheControl,
    ContentDisposition,
    ContentEncoding,
    ContentLanguage,
    ContentType,
    /// Arbitrary user metadata, keyed by the header suffix.
    Metadata(String),
}

/// A mapping from attribute kinds to string values.
#[derive(Debug, Clone)]
pub struct Attributes {
    pub pairs: Vec<(Attribute, String)>,
}

impl Attributes {
    pub fn new() -> (r: Self)
        ensures
            r.pairs@ == Seq::<(Attribute, String)>::empty(),
    {
        Attributes { pairs: Vec::new() }
    }

    pub fn push(&mut self, kind: Attribute, value: String)
        ensures
            final(self).pairs@ == old(self).pairs@.push((kind, value)),
    {
        self.pairs.push((kind, value));
    }

    /// Whether some pair sets the content type.
    pub open spec fn spec_has_content_type(&self) -> bool {
        exists|i: int| 0 <= i < self.pairs@.len() && self.pairs@[i].0 is ContentType
    }
}

/// Server-assigned identity of a written object.
#[derive(Debug, Clone)]
pub struct PutResult {
    pub e_tag: Option<String>,
    pub version: Option<String>,
}

/// Identifier of one uploaded part, derived from that part's response etag.
#[derive(Debug, Clone)]
pub struct PartId {
    pub content_id: String,
}

/// Opaque multipart session identifier, valid until exactly one terminal
/// complete or cleanup call.
pub type MultipartId = String;

/// Options of a single put call.
#[derive(Debug)]
pub struct PutOptions {
    pub mode: PutMode,
    pub attributes: Attributes,
    /// Caller-supplied request-scoped extension data, passed through opaque.
    pub extensions: http::Extensions,
}

impl Default for PutOptions {
    /// An unconditional overwrite with no attributes.
    fn default() -> (r: Self)
        ensures
            r.mode is Overwrite,
            r.attributes.pairs@.len() == 0,
    {
        PutOptions {
            mode: PutMode::Overwrite,
            attributes: Attributes::new(),
            extensions: new_extensions(),
        }
    }
}

/// Options of a multipart initiation.
#[derive(Debug)]
pub struct PutMultipartOpts {
    pub attributes: Attributes,
    pub extensions: http::Extensions,
}

impl Default for PutMultipartOpts {
    fn default() -> (r: Self)
        ensures
            r.attributes.pairs@.len() == 0,
    {
        PutMultipartOpts {
            attributes: Attributes::new(),
            extensions: new_extensions(),
        }
    }
}

/// An inclusive-start, exclusive-end byte range of a get request.
#[derive(Debug, Clone)]
pub struct GetRange {
    pub start: u64,
    pub end: u64,
}

/// Options of a get request.
#[derive(Debug)]
pub struct GetOptions {
    /// Select a HEAD request instead of a GET.
    pub head: bool,
    /// Request a specific object version.
    pub version: Option<String>,
    pub if_match: Option<String>,
    pub if_none_match: Option<String>,
    pub if_modified_since: Option<String>,
    pub if_unmodified_since: Option<String>,
    pub range: Option<GetRange>,
    pub extensions: http::Extensions,
}

impl Default for GetOptions {
    fn default() -> (r: Self)
        ensures
            !r.head,
            r.version is None,
            r.if_match is None,
            r.if_none_match is None,
            r.if_modified_since is None,
            r.if_unmodified_since is None,
            r.range is None,
    {
        GetOptions {
            head: false,
            version: None,
            if_match: None,
            if_none_match: None,
            if_modified_since: None,
            if_unmodified_since: None,
            range: None,
            extensions: new_extensions(),
        }
    }
}

/// Metadata of one listed object.
#[derive(Debug, Clone)]
pub struct ObjectMeta {
    /// The object's key within the bucket.
    pub location: String,
    /// The last-modified timestamp as the server printed it.
    pub last_modified: String,
    pub size: u64,
    pub e_tag: Option<String>,
}

/// The decoded portion of one page of a bucket listing.
#[derive(Debug, Clone)]
pub struct ListResult {
    pub objects: Vec<ObjectMeta>,
    pub common_prefixes: Vec<String>,
}

/// One page of a bucket listing; `page_token` is present iff more pages
/// exist.
#[derive(Debug, Clone)]
pub struct PaginatedListResult {
    pub result: ListResult,
    pub page_token: Option<String>,
}

/// Options of a single-page list request.
#[derive(Debug)]
pub struct PaginatedListOptions {
    pub delimiter: Option<String>,
    /// Continuation token from a prior page.
    pub page_token: Option<String>,
    pub max_keys: Option<u64>,
    /// Start listing after this key.
    pub offset: Option<String>,
    pub extensions: http::Extensions,
}

impl Default for PaginatedListOptions {
    fn default() -> (r: Self)
        ensures
            r.delimiter is None,
            r.page_token is None,
            r.max_keys is None,
            r.offset is None,
    {
        PaginatedListOptions {
            delimiter: None,
            page_token: None,
            max_keys: None,
            offset: None,
            extensions: new_extensions(),
        }
    }
}

} // verus!
