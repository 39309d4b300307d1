//! Images: their digests, their references, and the records kept of them.

pub mod memory;
pub mod reference;
pub mod store;

use crate::diagnostic::{Diagnosable, Error};
use crate::text::{concat2, has_prefix, owned};
use vstd::prelude::*;

verus! {

/// What `regex::Regex::is_match` returns for a haystack, on the regex that
/// `regex::Regex::new` compiles from a pattern; `None` where the pattern
/// does not compile.
pub uninterp spec fn regex_match(pattern: Seq<char>, haystack: Seq<char>) -> Option<bool>;

/// Compiles `pattern` with `regex::Regex::new` and asks `is_match` whether
/// it matches anywhere in `haystack`. For the pattern of a digest the
/// answer is spelled out: `^` and `$` are the two ends of the haystack,
/// `sha256:` stands for itself, and `[a-f0-9]{64}` is exactly 64 characters,
/// each a digit or one of `a` to `f`.
#[verifier::external_body]
fn regex_is_match(pattern: &str, haystack: &str) -> (r: Option<bool>)
    ensures
        r == regex_match(pattern@, haystack@),
        pattern@ == digest_pattern() ==> r == Some(is_digest(haystack@)),
{
    match regex::Regex::new(pattern) {
        Ok(re) => Some(re.is_match(haystack)),
        Err(_) => None,
    }
}

/// The pattern that a digest matches.
pub open spec fn digest_pattern() -> Seq<char> {
    "^sha256:[a-f0-9]{64}$"@
}

/// Whether `c` is a digit or one of the letters `a` to `f`.
pub open spec fn is_lower_hex(c: char) -> bool {
    ('0' <= c <= '9') || ('a' <= c <= 'f')
}

/// Whether `s` is a digest: `sha256:` followed by exactly 64 characters,
/// each a digit or one of the letters `a` to `f`.
pub open spec fn is_digest(s: Seq<char>) -> bool {
    &&& has_prefix(s, "sha256:"@)
    &&& s.len() == "sha256:"@.len() + 64
    &&& forall|i: int| "sha256:"@.len() <= i < s.len() ==> is_lower_hex(#[trigger] s[i])
}

/// What is wrong with a digest.
#[derive(Debug, Clone)]
pub enum DigestError {
    /// The text is no digest; it is kept for the message.
    InvalidFormat(String),
}

impl Diagnosable for DigestError {
    open spec fn message_of(&self) -> Seq<char> {
        match *self {
            DigestError::InvalidFormat(s) => "Invalid digest format: "@ + s@,
        }
    }

    open spec fn code_of(&self) -> Seq<char> {
        "IMAGE_DIGEST_INVALID"@
    }

    open spec fn suggestion_of(&self) -> Option<Seq<char>> {
        Some("Digest must be sha256:<hex>"@)
    }

    fn message(&self) -> (out: String) {
        match self {
            DigestError::InvalidFormat(s) => concat2("Invalid digest format: ", s.as_str()),
        }
    }

    fn code(&self) -> (out: String) {
        owned("IMAGE_DIGEST_INVALID")
    }

    fn suggestion(&self) -> (out: Option<String>) {
        Some(owned("Digest must be sha256:<hex>"))
    }
}

/// The content address of a blob: `sha256:` and 64 hexadecimal digits.
#[derive(Debug, PartialEq, Eq)]
pub struct Digest(String);

impl Clone for Digest {
    fn clone(&self) -> (out: Digest)
        ensures
            out@ == self@,
    {
        proof {
            use_type_invariant(self);
        }
        Digest(self.0.clone())
    }
}

impl View for Digest {
    type V = Seq<char>;

    closed spec fn view(&self) -> Seq<char> {
        self.0@
    }
}

impl Digest {
    /// Every digest has the form of one.
    #[verifier::type_invariant]
    closed spec fn well_formed(self) -> bool {
        is_digest(self.0@)
    }

    /// Accepts `s` if and only if it has the form of a digest; the error of
    /// a refusal names the text.
    pub fn new(s: &str) -> (r: Result<Digest, Error>)
        ensures
            match r {
                Ok(d) => is_digest(s@) && d@ == s@,
                Err(e) => {
                    &&& !is_digest(s@)
                    &&& e.code_view() == "IMAGE_DIGEST_INVALID"@
                    &&& e.message_view() == "Invalid digest format: "@ + s@
                    &&& e.suggestion_view() == Some("Digest must be sha256:<hex>"@)
                },
            },
    {
        match regex_is_match("^sha256:[a-f0-9]{64}$", s) {
            Some(true) => Ok(Digest(owned(s))),
            _ => Err(Error::new(DigestError::InvalidFormat(owned(s)))),
        }
    }

    /// The text of the digest.
    pub fn as_str(&self) -> (out: &str)
        ensures
            out@ == self@,
            is_digest(out@),
    {
        proof {
            use_type_invariant(self);
        }
        self.0.as_str()
    }
}

} // verus!
