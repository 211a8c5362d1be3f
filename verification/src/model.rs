//! The data that nodes store and exchange.

use vstd::prelude::*;

verus! {

/// The mapping of a node, seen as mathematics: from short code to normalized
/// URL.
pub type Entries = Map<Seq<char>, Seq<char>>;

/// A short code together with the normalized URL it stands for.
#[derive(Clone, Debug, PartialEq, Eq)]
pub struct UrlMapping {
    pub code: String,
    pub target: String,
}

/// The mathematical content of a [`UrlMapping`].
pub struct UrlMappingView {
    pub code: Seq<char>,
    pub target: Seq<char>,
}

impl View for UrlMapping {
    type V = UrlMappingView;

    open spec fn view(&self) -> UrlMappingView {
        UrlMappingView { code: self.code@, target: self.target@ }
    }
}

} // verus!
