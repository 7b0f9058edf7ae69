//! Immutable endpoint configuration: base URL, bucket, retry policy,
//! client-wide options, and the anonymous-access flag.

use vstd::prelude::*;
use crate::types::Path;
use crate::strutil::{push_str_chars, chars_to_string};

verus! {

/// A bearer token fetched from the external credential provider, shared
/// read-only across in-flight requests.
#[derive(Debug, Clone)]
pub struct GcpCredential {
    pub bearer: String,
}

/// Retry policy handed to the external retry engine; this client only reads
/// it through, it never retries itself.
#[derive(Debug, Clone)]
pub struct RetryConfig {
    pub max_retries: u64,
    pub retry_timeout_secs: u64,
}

/// Client-wide options; the content-type default is injected into write
/// requests that set no content type themselves.
#[derive(Debug, Clone)]
pub struct ClientOptions {
    pub default_content_type: Option<String>,
}

impl ClientOptions {
    pub fn new() -> (r: Self)
        ensures
            r.default_content_type is None,
    {
        ClientOptions { default_content_type: None }
    }
}

/// Immutable description of one endpoint. Credential acquisition itself is
/// asynchronous and external; `wants_credential` says whether a credential
/// must be fetched at all.
#[derive(Debug)]
pub struct GoogleCloudStorageConfig {
    pub base_url: String,
    pub bucket_name: String,
    pub retry_config: RetryConfig,
    pub client_options: ClientOptions,
    /// Bypass authentication entirely (anonymous/public bucket mode).
    pub skip_signature: bool,
}

impl GoogleCloudStorageConfig {
    pub fn new(
        base_url: String,
        bucket_name: String,
        retry_config: RetryConfig,
        client_options: ClientOptions,
        skip_signature: bool,
    ) -> (r: Self)
        ensures
            r.base_url@ == base_url@,
            r.bucket_name@ == bucket_name@,
            r.client_options == client_options,
            r.skip_signature == skip_signature,
    {
        GoogleCloudStorageConfig {
            base_url,
            bucket_name,
            retry_config,
            client_options,
            skip_signature,
        }
    }

    /// The un-encoded object URL `{base}/{bucket}/{path}`.
    pub fn path_url(&self, path: &Path) -> (r: String)
        ensures
            r@ == self.base_url@ + seq!['/'] + self.bucket_name@ + seq!['/'] + path@,
    {
        let mut out: Vec<char> = Vec::new();
        push_str_chars(&mut out, self.base_url.as_str());
        out.push('/');
        push_str_chars(&mut out, self.bucket_name.as_str());
        out.push('/');
        push_str_chars(&mut out, path.as_str());
        proof {
            assert(out@ =~= self.base_url@ + seq!['/'] + self.bucket_name@ + seq!['/'] + path@);
        }
        chars_to_string(&out)
    }

    /// Whether a credential must be fetched before sending: false exactly in
    /// anonymous mode, where a missing credential means "send
    /// unauthenticated", not an error.
    pub fn wants_credential(&self) -> (r: bool)
        ensures
            r == !self.skip_signature,
    {
        !self.skip_signature
    }
}

} // verus!
