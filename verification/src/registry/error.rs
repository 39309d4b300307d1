//! What goes wrong between the engine and a registry.

use crate::diagnostic::Diagnosable;
use crate::text::{concat2, owned};
use vstd::prelude::*;

verus! {

/// An error of the registry client.
#[derive(Debug, Clone)]
pub enum RegistryError {
    AuthenticationFailed(String),
    ManifestNotFound(String),
    BlobNotFound(String),
    /// The request failed; the text is the reason.
    Network(String),
    /// The host's file system refused; the text is its reason.
    Io(String),
    /// A blob does not have the digest under which it was asked for.
    InvalidDigest(String),
    /// A manifest list names no manifest for this platform.
    NoMatchingPlatform,
}

/// What a [`RegistryError`] holds, as mathematical values.
pub enum RegistryErrorView {
    AuthenticationFailed(Seq<char>),
    ManifestNotFound(Seq<char>),
    BlobNotFound(Seq<char>),
    Network(Seq<char>),
    Io(Seq<char>),
    InvalidDigest(Seq<char>),
    NoMatchingPlatform,
}

impl View for RegistryError {
    type V = RegistryErrorView;

    open spec fn view(&self) -> RegistryErrorView {
        match *self {
            RegistryError::AuthenticationFailed(s) => RegistryErrorView::AuthenticationFailed(s@),
            RegistryError::ManifestNotFound(s) => RegistryErrorView::ManifestNotFound(s@),
            RegistryError::BlobNotFound(s) => RegistryErrorView::BlobNotFound(s@),
            RegistryError::Network(s) => RegistryErrorView::Network(s@),
            RegistryError::Io(s) => RegistryErrorView::Io(s@),
            RegistryError::InvalidDigest(s) => RegistryErrorView::InvalidDigest(s@),
            RegistryError::NoMatchingPlatform => RegistryErrorView::NoMatchingPlatform,
        }
    }
}

impl Diagnosable for RegistryError {
    open spec fn message_of(&self) -> Seq<char> {
        match *self {
            RegistryError::AuthenticationFailed(s) => "Failed to authenticate with registry: "@
                + s@,
            RegistryError::ManifestNotFound(s) => "Manifest not found: "@ + s@,
            RegistryError::BlobNotFound(s) => "Blob not found: "@ + s@,
            RegistryError::Network(s) => "Network error: "@ + s@,
            RegistryError::Io(s) => "IO error: "@ + s@,
            RegistryError::InvalidDigest(s) => "Invalid digest: "@ + s@,
            RegistryError::NoMatchingPlatform => "No linux/amd64 manifest found in list"@,
        }
    }

    open spec fn code_of(&self) -> Seq<char> {
        match *self {
            RegistryError::AuthenticationFailed(_) => "REG_AUTH_FAILED"@,
            RegistryError::ManifestNotFound(_) => "REG_MANIFEST_MISSING"@,
            RegistryError::BlobNotFound(_) => "REG_BLOB_MISSING"@,
            RegistryError::Network(_) => "REG_NETWORK_ERROR"@,
            RegistryError::Io(_) => "FS_IO_ERROR"@,
            RegistryError::InvalidDigest(_) => "REG_DIGEST_MISMATCH"@,
            RegistryError::NoMatchingPlatform => "REG_NO_MATCHING_PLATFORM"@,
        }
    }

    open spec fn suggestion_of(&self) -> Option<Seq<char>> {
        match *self {
            RegistryError::AuthenticationFailed(_) => Some(
                "Check your internet connection or Docker Hub credentials."@,
            ),
            RegistryError::ManifestNotFound(_) => Some(
                "The image or tag might not exist. Check spelling."@,
            ),
            _ => None,
        }
    }

    fn message(&self) -> (out: String) {
        match self {
            RegistryError::AuthenticationFailed(s) => concat2(
                "Failed to authenticate with registry: ",
                s.as_str(),
            ),
            RegistryError::ManifestNotFound(s) => concat2("Manifest not found: ", s.as_str()),
            RegistryError::BlobNotFound(s) => concat2("Blob not found: ", s.as_str()),
            RegistryError::Network(s) => concat2("Network error: ", s.as_str()),
            RegistryError::Io(s) => concat2("IO error: ", s.as_str()),
            RegistryError::InvalidDigest(s) => concat2("Invalid digest: ", s.as_str()),
            RegistryError::NoMatchingPlatform => owned("No linux/amd64 manifest found in list"),
        }
    }

    fn code(&self) -> (out: String) {
        match self {
            RegistryError::AuthenticationFailed(_) => owned("REG_AUTH_FAILED"),
            RegistryError::ManifestNotFound(_) => owned("REG_MANIFEST_MISSING"),
            RegistryError::BlobNotFound(_) => owned("REG_BLOB_MISSING"),
            RegistryError::Network(_) => owned("REG_NETWORK_ERROR"),
            RegistryError::Io(_) => owned("FS_IO_ERROR"),
            RegistryError::InvalidDigest(_) => owned("REG_DIGEST_MISMATCH"),
            RegistryError::NoMatchingPlatform => owned("REG_NO_MATCHING_PLATFORM"),
        }
    }

    fn suggestion(&self) -> (out: Option<String>) {
        match self {
            RegistryError::AuthenticationFailed(_) => Some(
                owned("Check your internet connection or Docker Hub credentials."),
            ),
            RegistryError::ManifestNotFound(_) => Some(
                owned("The image or tag might not exist. Check spelling."),
            ),
            _ => None,
        }
    }
}

} // verus!
