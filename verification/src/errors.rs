//! The error taxonomy of the library.

use vstd::prelude::*;

verus! {

/// A transport or status failure reported by the fetcher implementation.
#[derive(Clone, Debug, PartialEq, Eq)]
pub struct FetchError {
    pub message: String,
}

/// Every failure the core can report.
///
/// `Fetch` carries a transport or non-success-status failure, `Parse` means
/// an expected HTML structure was absent, `Naming` that no file name could
/// be derived from a picture URL, and `NoData` / `InvalidIndex` flag misuse
/// of the searcher. `Batch` marks a directory-creation failure that aborts
/// a whole download batch, and `UnknownParser` a site code no parser is
/// registered for.
#[derive(Clone, Debug, PartialEq, Eq)]
pub enum CoreError {
    Fetch(FetchError),
    Parse,
    Naming,
    NoData,
    InvalidIndex,
    Batch,
    UnknownParser,
}

} // verus!
