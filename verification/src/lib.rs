//! Discovers paginated photo-album listings on third-party content sites,
//! lets a caller page through the results, and prepares downloads of all
//! pictures of a chosen album.
//!
//! The crate is organised around three pieces: site parsers that turn fetched
//! HTML into structured album data (`parser`), a pagination engine with a
//! bounded least-recently-used page cache (`searcher`, `cache`), and the
//! pure parts of the download pipeline: directory-name sanitization and
//! picture file naming (`sanitize`, `download`). All network traffic goes
//! through the `Fetcher` trait (`fetch`), which callers implement outside
//! the library.

pub mod album;
pub mod api;
pub mod cache;
pub mod command;
pub mod errors;
pub mod fetch;
pub mod download;
pub mod html;
pub mod naming;
pub mod parser;
pub mod prompt;
pub mod sanitize;
pub mod searcher;
pub mod text;
pub mod transliterate;

pub use album::Album;
pub use errors::CoreError;
pub use errors::FetchError;
pub use fetch::default_headers;
pub use fetch::FetchRequest;
pub use fetch::Fetcher;
pub use command::Command;
pub use searcher::AlbumSearcher;
