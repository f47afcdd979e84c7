//! The site parsers: one strategy per supported content site.
//!
//! A parser turns a keyword and page index into a site-specific search
//! URL, extracts album entries and a total-page estimate out of the
//! fetched HTML, resolves an album URL into its picture URLs (following
//! the album's own sub-pages where the site has them), and derives a
//! local file name for each picture URL.

use vstd::prelude::*;
use vstd::string::*;

use crate::album::Album;
use crate::album::AlbumView;
use crate::errors::CoreError;
use crate::fetch::{FetchRequest, Fetcher};
use crate::html::{
    count_matches, extract_albums, extract_pictures, select_nodes, selected_nodes, spec_albums_in,
    spec_pictures_in,
};
use crate::naming::{before_first_at, spec_last_segment, last_segment, strip_at_suffix};
use crate::text::{digits_val, is_numeral, numeral_body, parse_u32, push_u32, str_eq, u32_digits, upper_seq, upper_str};
use crate::transliterate::{keyword_to_pinyin, spec_keyword_pinyin};

verus! {

/// The supported sites, as a tagged strategy: each variant carries the
/// site's fixed selection rules, URL patterns and naming quirks.
#[derive(Clone, Copy, Debug, PartialEq, Eq, Structural)]
pub enum SiteParser {
    DiLi360,
    Sftk,
}

/// Resolves a site code (case-insensitively) into its parser.
pub fn parse(parser_code: &str) -> (r: Result<SiteParser, CoreError>)
    ensures
        upper_seq(parser_code@) == "DILI360"@ ==> (r matches Ok(p) && p == SiteParser::DiLi360),
        upper_seq(parser_code@) == "SFTK"@ ==> (r matches Ok(p) && p == SiteParser::Sftk),
        upper_seq(parser_code@) != "DILI360"@ && upper_seq(parser_code@) != "SFTK"@
            ==> (r matches Err(e) && e is UnknownParser),
{
    proof {
        reveal_strlit("DILI360");
        reveal_strlit("SFTK");
        assert("DILI360"@.len() == 7);
        assert("SFTK"@.len() == 4);
    }
    let upper = upper_str(parser_code);
    if str_eq(upper.as_str(), "DILI360") {
        Ok(SiteParser::DiLi360)
    } else if str_eq(upper.as_str(), "SFTK") {
        Ok(SiteParser::Sftk)
    } else {
        Err(CoreError::UnknownParser)
    }
}

/// The parser used when the caller names none.
pub fn default_parser() -> (r: SiteParser)
    ensures
        r == SiteParser::DiLi360,
{
    SiteParser::DiLi360
}

/// Every registered parser, as (code, display name) pairs.
pub fn parsers() -> (r: Vec<(String, String)>)
    ensures
        r.deep_view() =~= seq![("DILI360"@, "中国地理"@), ("SFTK"@, "私房图库"@)],
{
    let mut r: Vec<(String, String)> = Vec::new();
    r.push((String::from_str("DILI360"), String::from_str("中国地理")));
    r.push((String::from_str("SFTK"), String::from_str("私房图库")));
    r
}

/// The search URL of the geographic site: its external page numbering is
/// 0-based, so page `p` of the searcher becomes `p - 1` in the URL.
pub open spec fn spec_dili_search_url(keyword: Seq<char>, page: u32) -> Seq<char>
    recommends
        page >= 1,
{
    "https://zhannei.baidu.com/cse/site?q="@ + keyword + "&p="@ + u32_digits(
        (page - 1) as nat,
    ) + "&nsid=&cc=www.dili360.com"@
}

fn dili_search_url(keyword: &str, page: u32) -> (r: String)
    requires
        page >= 1,
    ensures
        r@ == spec_dili_search_url(keyword@, page),
{
    let mut r = String::from_str("https://zhannei.baidu.com/cse/site?q=");
    r.append(keyword);
    r.append("&p=");
    push_u32(&mut r, page - 1);
    r.append("&nsid=&cc=www.dili360.com");
    proof {
        assert(r@ =~= spec_dili_search_url(keyword@, page));
    }
    r
}

/// The search URL of the picture-library site: the keyword goes in
/// romanised, the page numbering is 1-based as the searcher's own.
pub open spec fn spec_sftk_search_url(keyword: Seq<char>, page: u32) -> Seq<char> {
    "http://www.sftuku.com/chis/"@ + spec_keyword_pinyin(keyword) + "/"@ + u32_digits(
        page as nat,
    ) + ".html"@
}

fn sftk_search_url(keyword: &str, page: u32) -> (r: String)
    ensures
        r@ == spec_sftk_search_url(keyword@, page),
{
    let pinyin = keyword_to_pinyin(keyword);
    let mut r = String::from_str("http://www.sftuku.com/chis/");
    r.append(pinyin.as_str());
    r.append("/");
    push_u32(&mut r, page);
    r.append(".html");
    proof {
        assert(r@ =~= spec_sftk_search_url(keyword@, page));
    }
    r
}

/// A sub-page URL of an album: the URL's trailing `.html` replaced by
/// `_<index>.html`.
pub open spec fn spec_sftk_subpage_url(url: Seq<char>, index: u32) -> Seq<char>
    recommends
        url.len() >= 5,
{
    url.subrange(0, url.len() - 5) + "_"@ + u32_digits(index as nat) + ".html"@
}

fn sftk_subpage_url(url: &str, index: u32) -> (r: String)
    requires
        url@.len() >= 5,
    ensures
        r@ == spec_sftk_subpage_url(url@, index),
{
    let n = url.unicode_len();
    let base = url.substring_char(0, n - 5);
    let mut r = String::from_str(base);
    r.append("_");
    push_u32(&mut r, index);
    r.append(".html");
    proof {
        assert(r@ =~= spec_sftk_subpage_url(url@, index));
    }
    r
}

/// The header overrides of the picture-library site.
fn sftk_headers() -> (r: Vec<(String, String)>)
    ensures
        r.deep_view() =~= seq![
            ("Accept-Language"@, "zh-CN,zh-Hans;q=0.9"@),
            ("Host"@, "www.sftuku.com"@),
        ],
{
    let mut r: Vec<(String, String)> = Vec::new();
    r.push((String::from_str("Accept-Language"), String::from_str("zh-CN,zh-Hans;q=0.9")));
    r.push((String::from_str("Host"), String::from_str("www.sftuku.com")));
    r
}

/// The albums on a result page of the geographic site.
pub open spec fn spec_dili_albums(html: Seq<char>) -> Seq<AlbumView> {
    spec_albums_in(html, "#results>div>h3>a"@, ""@)
}

/// The albums on a result page of the picture-library site; link targets
/// are relative and get the site's base URL prefixed.
pub open spec fn spec_sftk_albums(html: Seq<char>) -> Seq<AlbumView> {
    spec_albums_in(html, "#list>ul>div>.title>a"@, "http://www.sftuku.com"@)
}

/// The total page count announced on a result page of the geographic
/// site: the text of the last footer pager element, read as a number;
/// absent when the element is missing or its text is no numeral.
pub open spec fn spec_dili_total(html: Seq<char>) -> Option<u32> {
    let nodes = selected_nodes(html, "#pageFooter .pager-normal-foot"@, "href"@);
    if nodes.len() == 0 {
        None
    } else {
        let t = nodes.last().1;
        if is_numeral(t) && digits_val(numeral_body(t)) <= u32::MAX {
            Some(digits_val(numeral_body(t)) as u32)
        } else {
            None
        }
    }
}

/// The total page count announced on a result page of the picture-library
/// site: how many pager blocks the page holds.
pub open spec fn spec_sftk_total(html: Seq<char>) -> nat {
    selected_nodes(html, ".pagelist"@, "href"@).len()
}

/// The sub-page count of an album of the picture-library site: one more
/// than the number of pager links.
pub open spec fn spec_sftk_pagination(html: Seq<char>) -> nat {
    selected_nodes(html, ".pagelist>a"@, "href"@).len() + 1
}

/// The pictures of an album of the picture-library site: the picture
/// extraction of each sub-page's text, concatenated in sub-page order.
pub open spec fn sftk_pages_pictures(pages: Seq<Seq<char>>) -> Seq<Seq<char>>
    decreases pages.len(),
{
    if pages.len() == 0 {
        Seq::empty()
    } else {
        sftk_pages_pictures(pages.drop_last()) + spec_pictures_in(
            pages.last(),
            "#picg>.slide>a>img"@,
        )
    }
}

fn dili_total_from_html(html: &str) -> (r: Result<u32, CoreError>)
    ensures
        match spec_dili_total(html@) {
            Some(v) => r matches Ok(rv) && rv == v,
            None => r matches Err(e) && e is Parse,
        },
{
    let nodes = select_nodes(html, "#pageFooter .pager-normal-foot", "href");
    let ghost dv = nodes.deep_view();
    proof {
        assert(dv.len() == nodes@.len());
    }
    if nodes.len() == 0 {
        return Err(CoreError::Parse);
    }
    let i = nodes.len() - 1;
    let t = &nodes[i].1;
    proof {
        assert(dv.last() == nodes@[i as int].deep_view());
        assert(dv.last().1 == t@);
    }
    match parse_u32(t.as_str()) {
        Some(v) => Ok(v),
        None => Err(CoreError::Parse),
    }
}

impl SiteParser {
    /// The display name of the site.
    pub fn parser_name(&self) -> (r: String)
        ensures
            *self is DiLi360 ==> r@ == "中国地理"@,
            *self is Sftk ==> r@ == "私房图库"@,
    {
        match self {
            SiteParser::DiLi360 => String::from_str("中国地理"),
            SiteParser::Sftk => String::from_str("私房图库"),
        }
    }

    /// The total page count a fetched result page announces; a
    /// structurally absent page indicator is a `Parse` error, so a total
    /// handed out is always at least 1.
    pub fn parse_page_count(&self, html: &str) -> (r: Result<u32, CoreError>)
        ensures
            *self is DiLi360 ==> match spec_dili_total(html@) {
                Some(v) => r matches Ok(rv) && rv == v,
                None => r matches Err(e) && e is Parse,
            },
            *self is Sftk && spec_sftk_total(html@) == 0 ==> (r matches Err(e) && e is Parse),
            *self is Sftk && spec_sftk_total(html@) > 0 ==> (r matches Ok(rv) && 1 <= rv
                && rv as nat == vstd::math::min(spec_sftk_total(html@) as int, u32::MAX as int)),
    {
        match self {
            SiteParser::DiLi360 => dili_total_from_html(html),
            SiteParser::Sftk => {
                let count = count_matches(html, ".pagelist");
                if count == 0 {
                    Err(CoreError::Parse)
                } else {
                    Ok(count)
                }
            },
        }
    }

    /// How many sub-pages an album page of this site announces; the
    /// geographic site has no sub-pagination.
    pub fn get_pagination(&self, html: &str) -> (r: u32)
        ensures
            *self is DiLi360 ==> r == 1,
            *self is Sftk ==> r as nat == vstd::math::min(
                spec_sftk_pagination(html@) as int,
                u32::MAX as int,
            ),
    {
        match self {
            SiteParser::DiLi360 => 1,
            SiteParser::Sftk => {
                let c = count_matches(html, ".pagelist>a");
                if c == u32::MAX {
                    c
                } else {
                    c + 1
                }
            },
        }
    }

    /// Fetches one result page for `keyword` and extracts its albums and
    /// the announced total page count.
    ///
    /// Entries missing a link target or visible text are dropped, not
    /// failed; a missing page indicator fails with `Parse`. What comes
    /// back is exactly the extraction of some fetched text; the
    /// extraction itself is pinned by `spec_dili_albums` /
    /// `spec_sftk_albums` over the fetched text.
    pub fn parse_albums<F: Fetcher>(
        &self,
        fetcher: &F,
        keyword: &str,
        page: u32,
        size: u32,
    ) -> (r: Result<(Vec<Album>, u32), CoreError>)
        requires
            page >= 1,
        ensures
            r matches Err(e) ==> e is Fetch || e is Parse,
            *self is DiLi360 ==> (r matches Ok(p) ==> exists|h: Seq<char>|
                p.0.deep_view() == #[trigger] spec_dili_albums(h) && spec_dili_total(h) == Some(
                    p.1,
                )),
            *self is Sftk ==> (r matches Ok(p) ==> exists|h: Seq<char>|
                p.0.deep_view() == #[trigger] spec_sftk_albums(h) && spec_sftk_total(h) > 0
                    && 1 <= p.1 && p.1 as nat == vstd::math::min(
                    spec_sftk_total(h) as int,
                    u32::MAX as int,
                )),
    {
        let _ = size;
        match self {
            SiteParser::DiLi360 => {
                let url = dili_search_url(keyword, page);
                let request = FetchRequest { url, headers: Vec::new(), encoding: None };
                let html = match fetcher.fetch(&request) {
                    Ok(html) => html,
                    Err(e) => {
                        return Err(CoreError::Fetch(e));
                    },
                };
                let albums = extract_albums(html.as_str(), "#results>div>h3>a", "");
                let total = match dili_total_from_html(html.as_str()) {
                    Ok(total) => total,
                    Err(e) => {
                        return Err(e);
                    },
                };
                proof {
                    assert(spec_dili_albums(html@) == albums.deep_view());
                }
                Ok((albums, total))
            },
            SiteParser::Sftk => {
                let url = sftk_search_url(keyword, page);
                let request = FetchRequest {
                    url,
                    headers: sftk_headers(),
                    encoding: Some(String::from_str("GBK")),
                };
                let html = match fetcher.fetch(&request) {
                    Ok(html) => html,
                    Err(e) => {
                        return Err(CoreError::Fetch(e));
                    },
                };
                let albums = extract_albums(
                    html.as_str(),
                    "#list>ul>div>.title>a",
                    "http://www.sftuku.com",
                );
                let total = count_matches(html.as_str(), ".pagelist");
                if total == 0 {
                    return Err(CoreError::Parse);
                }
                proof {
                    assert(spec_sftk_albums(html@) == albums.deep_view());
                }
                Ok((albums, total))
            },
        }
    }

    /// Fetches one album page and extracts the picture URLs on it.
    pub fn get_page_pictures<F: Fetcher>(&self, fetcher: &F, url: &str) -> (r: Result<
        Vec<String>,
        CoreError,
    >)
        ensures
            r matches Err(e) ==> e is Fetch,
            *self is DiLi360 ==> (r matches Ok(pics) ==> exists|h: Seq<char>|
                pics.deep_view() == #[trigger] spec_pictures_in(h, ".imgbox>.img>img"@)),
            *self is Sftk ==> (r matches Ok(pics) ==> exists|h: Seq<char>|
                pics.deep_view() == #[trigger] spec_pictures_in(h, "#picg>.slide>a>img"@)),
    {
        match self {
            SiteParser::DiLi360 => {
                let request = FetchRequest {
                    url: String::from_str(url),
                    headers: Vec::new(),
                    encoding: None,
                };
                let html = match fetcher.fetch(&request) {
                    Ok(html) => html,
                    Err(e) => {
                        return Err(CoreError::Fetch(e));
                    },
                };
                Ok(extract_pictures(html.as_str(), ".imgbox>.img>img"))
            },
            SiteParser::Sftk => {
                let request = FetchRequest {
                    url: String::from_str(url),
                    headers: sftk_headers(),
                    encoding: Some(String::from_str("GBK")),
                };
                let html = match fetcher.fetch(&request) {
                    Ok(html) => html,
                    Err(e) => {
                        return Err(CoreError::Fetch(e));
                    },
                };
                Ok(extract_pictures(html.as_str(), "#picg>.slide>a>img"))
            },
        }
    }

    /// Resolves an album URL into the full, ordered list of its picture
    /// URLs, fetching and concatenating every sub-page of the album in
    /// sub-page order where the site has sub-pagination.
    ///
    /// Fails with `Fetch` when a page cannot be fetched and with `Parse`
    /// when the album URL is too short to carry the site's sub-page
    /// pattern (checked before anything is fetched). On success the
    /// result is, per site, the picture extraction of the fetched texts:
    /// for the picture-library site the concatenation, in sub-page
    /// order, over one fetched text per sub-page of the album.
    pub fn get_all_pictures<F: Fetcher>(&self, fetcher: &F, url: &str) -> (r: Result<
        Vec<String>,
        CoreError,
    >)
        ensures
            r matches Err(e) ==> e is Fetch || e is Parse,
            *self is DiLi360 ==> (r matches Ok(pics) ==> exists|h: Seq<char>|
                pics.deep_view() == #[trigger] spec_pictures_in(h, ".imgbox>.img>img"@)),
            *self is Sftk && url@.len() < 5 ==> (r matches Err(e) && e is Parse),
            *self is Sftk ==> (r matches Ok(pics) ==> exists|h0: Seq<char>, hs: Seq<Seq<char>>|
                #![trigger spec_sftk_pagination(h0), sftk_pages_pictures(hs)]
                hs.len() == vstd::math::min(spec_sftk_pagination(h0) as int, u32::MAX as int)
                    && pics.deep_view() == sftk_pages_pictures(hs)),
    {
        match self {
            SiteParser::DiLi360 => self.get_page_pictures(fetcher, url),
            SiteParser::Sftk => {
                if url.unicode_len() < 5 {
                    return Err(CoreError::Parse);
                }
                let request = FetchRequest {
                    url: String::from_str(url),
                    headers: sftk_headers(),
                    encoding: Some(String::from_str("GBK")),
                };
                let html = match fetcher.fetch(&request) {
                    Ok(html) => html,
                    Err(e) => {
                        return Err(CoreError::Fetch(e));
                    },
                };
                let pages = self.get_pagination(html.as_str());
                let ghost h0 = html@;
                let ghost mut hs = Seq::<Seq<char>>::empty();
                let mut all: Vec<String> = Vec::new();
                let mut i: u64 = 1;
                while i <= pages as u64
                    invariant
                        1 <= i <= pages as u64 + 1,
                        url@.len() >= 5,
                        *self is Sftk,
                        pages as nat == vstd::math::min(
                            spec_sftk_pagination(h0) as int,
                            u32::MAX as int,
                        ),
                        hs.len() == i - 1,
                        all.deep_view() == sftk_pages_pictures(hs),
                    decreases pages as u64 + 1 - i,
                {
                    let page_url = sftk_subpage_url(url, i as u32);
                    let mut pictures = match self.get_page_pictures(fetcher, page_url.as_str()) {
                        Ok(pictures) => pictures,
                        Err(e) => {
                            return Err(e);
                        },
                    };
                    let ghost all_entries = all.deep_view();
                    let ghost page_entries = pictures.deep_view();
                    let ghost prev_hs = hs;
                    proof {
                        let h = choose|h: Seq<char>|
                            pictures.deep_view() == #[trigger] spec_pictures_in(
                                h,
                                "#picg>.slide>a>img"@,
                            );
                        hs = hs.push(h);
                        assert(hs.drop_last() =~= prev_hs);
                        assert(page_entries == spec_pictures_in(
                            hs.last(),
                            "#picg>.slide>a>img"@,
                        ));
                    }
                    all.append(&mut pictures);
                    proof {
                        assert(all.deep_view() =~= all_entries + page_entries);
                        assert(sftk_pages_pictures(hs) == sftk_pages_pictures(prev_hs)
                            + page_entries);
                    }
                    i = i + 1;
                }
                proof {
                    assert(hs.len() == vstd::math::min(
                        spec_sftk_pagination(h0) as int,
                        u32::MAX as int,
                    ) && all.deep_view() == sftk_pages_pictures(hs));
                }
                Ok(all)
            },
        }
    }

    /// Derives the local file name of a picture from the last path
    /// segment of its URL; the geographic site's cache-busting `@` suffix
    /// is stripped. Fails with `Naming` when the URL has no path segment.
    pub fn get_picture_name(&self, url: &str) -> (r: Result<String, CoreError>)
        ensures
            match spec_picture_name(*self, url@) {
                Some(name) => r matches Ok(s) && s@ == name,
                None => r matches Err(e) && e is Naming,
            },
    {
        match last_segment(url) {
            Some(seg) => {
                match self {
                    SiteParser::DiLi360 => Ok(strip_at_suffix(seg.as_str())),
                    SiteParser::Sftk => Ok(seg),
                }
            },
            None => Err(CoreError::Naming),
        }
    }
}

/// The file name a picture URL yields for a site: the last path segment,
/// truncated at `@` for the geographic site; absent when the URL has no
/// path segment.
pub open spec fn spec_picture_name(parser: SiteParser, url: Seq<char>) -> Option<Seq<char>> {
    match spec_last_segment(url) {
        Some(seg) => if parser is DiLi360 {
            Some(before_first_at(seg))
        } else {
            Some(seg)
        },
        None => None,
    }
}

} // verus!
