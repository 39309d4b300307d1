//! What the registry client asks of a registry, and what it makes of the
//! answers.

use crate::registry::error::{RegistryError, RegistryErrorView};
use crate::text::{concat2, owned};
use vstd::prelude::*;
use vstd::string::StringExecFns;

verus! {

/// The registry that is asked where none is named.
pub open spec fn default_registry() -> Seq<char> {
    "https://registry-1.docker.io"@
}

/// The token service of the default registry.
pub open spec fn default_realm() -> Seq<char> {
    "https://auth.docker.io/token"@
}

/// The name under which the default registry is known to its token service.
pub open spec fn default_service() -> Seq<char> {
    "registry.docker.io"@
}

/// The scope that allows pulling from `repo`: `repository:<repo>:pull`.
pub open spec fn pull_scope_of(repo: Seq<char>) -> Seq<char> {
    "repository:"@ + repo + ":pull"@
}

/// `<registry>/v2/<repo>/manifests/<reference>`.
pub open spec fn manifest_url_of(registry: Seq<char>, repo: Seq<char>, reference: Seq<char>)
    -> Seq<char> {
    registry + "/v2/"@ + repo + "/manifests/"@ + reference
}

/// `<registry>/v2/<repo>/blobs/<digest>`.
pub open spec fn blob_url_of(registry: Seq<char>, repo: Seq<char>, digest: Seq<char>) -> Seq<
    char,
> {
    registry + "/v2/"@ + repo + "/blobs/"@ + digest
}

/// The `Authorization` header for a token: `Bearer <token>`.
pub open spec fn bearer_of(token: Seq<char>) -> Seq<char> {
    "Bearer "@ + token
}

/// Whether an HTTP status reports success.
pub open spec fn is_success(status: u16) -> bool {
    200 <= status < 300
}

/// What a registry answered to a request.
#[derive(Debug, Clone)]
pub enum RegistryReply {
    /// It answered with this status and this body.
    Answered { status: u16, body: Vec<u8> },
    /// It could not be reached, or its answer could not be read.
    Failed(String),
}

/// The client of a registry.
#[derive(Debug, Clone)]
pub struct RegistryClient {
    pub registry_url: String,
}

impl RegistryClient {
    /// The client of the default registry.
    pub fn new() -> (out: RegistryClient)
        ensures
            out.registry_url@ == default_registry(),
    {
        RegistryClient { registry_url: owned("https://registry-1.docker.io") }
    }

    /// The scope that allows pulling from `repo`.
    pub fn pull_scope(repo: &str) -> (out: String)
        ensures
            out@ == pull_scope_of(repo@),
    {
        let mut out = owned("repository:");
        out.append(repo);
        out.append(":pull");
        out
    }

    /// The address of the manifest `reference` of `repo`.
    pub fn manifest_url(&self, repo: &str, reference: &str) -> (out: String)
        ensures
            out@ == manifest_url_of(self.registry_url@, repo@, reference@),
    {
        let mut out = self.registry_url.clone();
        out.append("/v2/");
        out.append(repo);
        out.append("/manifests/");
        out.append(reference);
        out
    }

    /// The address of the blob `digest` of `repo`.
    pub fn blob_url(&self, repo: &str, digest: &str) -> (out: String)
        ensures
            out@ == blob_url_of(self.registry_url@, repo@, digest@),
    {
        let mut out = self.registry_url.clone();
        out.append("/v2/");
        out.append(repo);
        out.append("/blobs/");
        out.append(digest);
        out
    }

    /// The `Authorization` header for `token`.
    pub fn bearer(token: &str) -> (out: String)
        ensures
            out@ == bearer_of(token@),
    {
        concat2("Bearer ", token)
    }

    /// The media types that are accepted for a manifest: a manifest for one
    /// platform, and a manifest list.
    pub fn accepted_manifest_types() -> (out: Vec<String>)
        ensures
            out@.len() == 2,
            out@[0]@ == "application/vnd.docker.distribution.manifest.v2+json"@,
            out@[1]@ == "application/vnd.docker.distribution.manifest.list.v2+json"@,
    {
        let mut out: Vec<String> = Vec::new();
        out.push(owned("application/vnd.docker.distribution.manifest.v2+json"));
        out.push(owned("application/vnd.docker.distribution.manifest.list.v2+json"));
        out
    }

    /// The manifest that was asked for under `reference`, given the
    /// registry's answer: the body of a success; for the status 404, the
    /// error that the manifest is not found; else a network error.
    pub fn manifest_from(reference: &str, reply: RegistryReply) -> (r: Result<
        Vec<u8>,
        RegistryError,
    >)
        ensures
            match reply {
                RegistryReply::Answered { status, body } => if is_success(status) {
                    r == Ok::<Vec<u8>, RegistryError>(body)
                } else if status == 404 {
                    r matches Err(e) && e@ == RegistryErrorView::ManifestNotFound(reference@)
                } else {
                    r matches Err(e) && e is Network
                },
                RegistryReply::Failed(reason) => r matches Err(e) && e@
                    == RegistryErrorView::Network(reason@),
            },
    {
        match reply {
            RegistryReply::Answered { status, body } => {
                if 200 <= status && status < 300 {
                    Ok(body)
                } else if status == 404 {
                    Err(RegistryError::ManifestNotFound(owned(reference)))
                } else {
                    Err(RegistryError::Network(owned("unexpected status")))
                }
            },
            RegistryReply::Failed(reason) => Err(RegistryError::Network(reason)),
        }
    }

    /// The blob that was asked for under `digest`, given the registry's
    /// answer: the body of a success; for the status 404, the error that the
    /// blob is not found; else a network error.
    pub fn blob_from(digest: &str, reply: RegistryReply) -> (r: Result<Vec<u8>, RegistryError>)
        ensures
            match reply {
                RegistryReply::Answered { status, body } => if is_success(status) {
                    r == Ok::<Vec<u8>, RegistryError>(body)
                } else if status == 404 {
                    r matches Err(e) && e@ == RegistryErrorView::BlobNotFound(digest@)
                } else {
                    r matches Err(e) && e is Network
                },
                RegistryReply::Failed(reason) => r matches Err(e) && e@
                    == RegistryErrorView::Network(reason@),
            },
    {
        match reply {
            RegistryReply::Answered { status, body } => {
                if 200 <= status && status < 300 {
                    Ok(body)
                } else if status == 404 {
                    Err(RegistryError::BlobNotFound(owned(digest)))
                } else {
                    Err(RegistryError::Network(owned("unexpected status")))
                }
            },
            RegistryReply::Failed(reason) => Err(RegistryError::Network(reason)),
        }
    }
}

} // verus!
