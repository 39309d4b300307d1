//! Paths on the host, kept as a base directory and the names that lead from
//! it to the file. The host joins them with its own separator.

use crate::text::string_views;
use vstd::prelude::*;

verus! {

/// A path on the host: `base`, then each of `parts` below it in turn.
#[derive(Debug, Clone, PartialEq, Eq)]
pub struct HostPath {
    pub base: String,
    pub parts: Vec<String>,
}

/// What a [`HostPath`] holds, as mathematical values.
pub struct HostPathView {
    pub base: Seq<char>,
    pub parts: Seq<Seq<char>>,
}

impl View for HostPath {
    type V = HostPathView;

    open spec fn view(&self) -> HostPathView {
        HostPathView { base: self.base@, parts: string_views(self.parts@) }
    }
}

} // verus!
