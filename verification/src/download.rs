//! The pure parts of the download pipeline.
//!
//! Resolving an album into a batch — the picture URL list and the
//! sanitized directory segment — is verified here. Creating the
//! directory, fetching picture bytes under the concurrency cap and
//! writing files is I/O and stays with the caller; a single picture's
//! failure is reported per unit there and never aborts the batch.

use vstd::prelude::*;

use crate::album::Album;
use crate::errors::CoreError;
use crate::fetch::Fetcher;
use crate::html::spec_pictures_in;
use crate::parser::{sftk_pages_pictures, spec_sftk_pagination, SiteParser};
use crate::sanitize::{filenamify, spec_sanitize};

verus! {

/// The fixed cap on simultaneous picture fetches within one batch.
pub const MAX_CONCURRENT_DOWNLOADS: usize = 16;

/// Everything a batch needs before the first picture is fetched: the
/// filesystem-safe directory segment for the album and its resolved
/// picture URLs, in order.
pub struct DownloadPlan {
    pub directory: String,
    pub pictures: Vec<String>,
}

/// Resolves `album` into a download plan: the full picture list via the
/// parser (fetching the album's sub-pages as the site requires) and the
/// album name sanitized into a directory segment.
///
/// A listing failure aborts the whole batch; per-picture failures
/// cannot occur here, as no picture is fetched yet. On success the
/// pictures are exactly the parser's listing of the fetched texts.
pub fn download_plan<F: Fetcher>(parser: &SiteParser, fetcher: &F, album: &Album) -> (r: Result<
    DownloadPlan,
    CoreError,
>)
    ensures
        r matches Ok(plan) ==> plan.directory@ == spec_sanitize(album@.name),
        *parser is DiLi360 ==> (r matches Ok(plan) ==> exists|h: Seq<char>|
            plan.pictures.deep_view() == #[trigger] spec_pictures_in(h, ".imgbox>.img>img"@)),
        *parser is Sftk ==> (r matches Ok(plan) ==> exists|h0: Seq<char>, hs: Seq<Seq<char>>|
            #![trigger spec_sftk_pagination(h0), sftk_pages_pictures(hs)]
            hs.len() == vstd::math::min(spec_sftk_pagination(h0) as int, u32::MAX as int)
                && plan.pictures.deep_view() == sftk_pages_pictures(hs)),
        *parser is Sftk && album@.url.len() < 5 ==> (r matches Err(e) && e is Parse),
        r matches Err(e) ==> (e is Fetch || e is Parse),
{
    let pictures = match parser.get_all_pictures(fetcher, album.url.as_str()) {
        Ok(pictures) => pictures,
        Err(e) => {
            return Err(e);
        },
    };
    let directory = filenamify(album.name.as_str());
    Ok(DownloadPlan { directory, pictures })
}

} // verus!
