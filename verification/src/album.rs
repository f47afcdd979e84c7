//! The album value object produced by the site parsers.

use vstd::prelude::*;

verus! {

/// One album discovered on a result page: a display name (any Unicode) and
/// the source URL that the site parser can resolve into picture URLs.
#[derive(Clone, Debug, PartialEq, Eq)]
pub struct Album {
    pub name: String,
    pub url: String,
}

/// The mathematical value of an [`Album`]: both fields as character
/// sequences.
pub struct AlbumView {
    pub name: Seq<char>,
    pub url: Seq<char>,
}

impl View for Album {
    type V = AlbumView;

    open spec fn view(&self) -> AlbumView {
        AlbumView { name: self.name@, url: self.url@ }
    }
}

impl DeepView for Album {
    type V = AlbumView;

    open spec fn deep_view(&self) -> AlbumView {
        self.view()
    }
}

impl Album {
    /// Builds an album from its parts.
    pub fn new(name: String, url: String) -> (a: Album)
        ensures
            a@.name == name@,
            a@.url == url@,
    {
        Album { name, url }
    }
}

} // verus!
