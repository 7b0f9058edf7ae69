//! Declarations for the request-scoped extension data carried through every
//! request untouched.
//!
//! Extension data is caller-supplied and opaque to this client: it is stored
//! on a planned request and handed to the transport as-is.

use vstd::prelude::*;

verus! {

/// `http::Extensions` is an opaque type map; this client never looks inside
/// a value of it.
#[verifier::external_type_specification]
#[verifier::external_body]
pub struct ExExtensions(http::Extensions);

/// Relies on `http::Extensions::new`: creates an empty extension map. The
/// value is opaque, so nothing is stated of it.
#[verifier::external_body]
pub fn new_extensions() -> http::Extensions {
    http::Extensions::new()
}

} // verus!
