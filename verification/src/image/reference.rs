//! The name under which an image is asked for.

use crate::text::owned;
use vstd::prelude::*;

verus! {

/// A repository and a tag, and the registry where it is not the default.
#[derive(Debug, Clone, PartialEq, Eq)]
pub struct ImageRef {
    pub registry: Option<String>,
    pub repository: String,
    pub tag: String,
}

impl ImageRef {
    /// The reference to `repository:tag` in the default registry.
    pub fn new(repository: &str, tag: &str) -> (out: ImageRef)
        ensures
            out.registry is None,
            out.repository@ == repository@,
            out.tag@ == tag@,
    {
        ImageRef { registry: None, repository: owned(repository), tag: owned(tag) }
    }
}

} // verus!
