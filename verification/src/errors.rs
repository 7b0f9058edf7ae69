//! The tagged error set produced by every fallible step of the client.
//!
//! Callers pattern-match on the kind: in particular the conditional-write
//! remappings (create-mode put and conditional copy) turn a generic
//! `Precondition` outcome into `AlreadyExists`.

use vstd::prelude::*;

verus! {

/// One error kind per fallible step, with the target path attached where the
/// operation is path-scoped.
#[derive(Debug, Clone, PartialEq, Eq)]
pub enum Error {
    /// Transport or retry failure on a generic path-scoped request; carries
    /// the final HTTP status when one was received.
    Request { path: String, status: Option<u16> },
    /// Transport or retry failure on a get request.
    GetRequest { path: String, status: Option<u16> },
    /// Transport or retry failure on a list request.
    ListRequest { status: Option<u16> },
    /// Transport or retry failure on a complete-multipart request.
    CompleteMultipartRequest { status: Option<u16> },
    /// Transport or retry failure on a sign-blob request.
    SignBlobRequest { status: Option<u16> },
    /// The object was not found (HTTP 404 on a path-scoped request).
    NotFound { path: String },
    /// The object was not modified (HTTP 304 on a path-scoped request).
    NotModified { path: String },
    /// A server-side precondition failed (HTTP 412) and no remapping applies.
    Precondition { path: String },
    /// The object already exists: a create-mode put or a conditional copy hit
    /// a failed precondition, or the server reported a conflict.
    AlreadyExists { path: String },
    /// The transport succeeded but reading the response body failed.
    ListResponseBody,
    /// The transport succeeded but reading a put response body failed.
    PutResponseBody,
    /// The transport succeeded but reading the complete-multipart response
    /// body failed.
    CompleteMultipartResponseBody,
    /// The list response body was not a well-formed listing document.
    InvalidListResponse,
    /// A put-style response body was not the expected document.
    InvalidPutResponse,
    /// A request body could not be encoded before transmission.
    InvalidPutRequest,
    /// The complete-multipart response body was not the expected document.
    InvalidMultipartResponse,
    /// The sign-blob response was not the expected document.
    InvalidSignBlobResponse,
    /// The signature in the sign-blob response was not valid base64.
    InvalidSignBlobSignature,
    /// Required metadata headers were absent from an otherwise successful
    /// response.
    Metadata { path: String },
    /// A conditional update was requested without an expected version; this
    /// is a local error and never reaches the network.
    MissingVersion,
}

impl Error {
    /// The path this error is scoped to, where the operation had one.
    pub fn path(&self) -> (r: Option<&String>)
        ensures
            match self {
                Error::Request { path, .. } => r == Some(path),
                Error::GetRequest { path, .. } => r == Some(path),
                Error::NotFound { path } => r == Some(path),
                Error::NotModified { path } => r == Some(path),
                Error::Precondition { path } => r == Some(path),
                Error::AlreadyExists { path } => r == Some(path),
                Error::Metadata { path } => r == Some(path),
                _ => r is None,
            },
    {
        match self {
            Error::Request { path, .. } => Some(path),
            Error::GetRequest { path, .. } => Some(path),
            Error::NotFound { path } => Some(path),
            Error::NotModified { path } => Some(path),
            Error::Precondition { path } => Some(path),
            Error::AlreadyExists { path } => Some(path),
            Error::Metadata { path } => Some(path),
            _ => None,
        }
    }
}

} // verus!
