//! Selecting nodes out of fetched HTML.
//!
//! The one trusted item here wraps the `scraper` crate: it hands back, for
//! every element matched by a CSS selector, one attribute value and the
//! element's text. Everything downstream of it — filtering entries,
//! assembling albums and picture lists — is verified against the
//! `selected_nodes` name.

use vstd::prelude::*;
use vstd::string::*;

use crate::album::Album;
use crate::album::AlbumView;

verus! {

/// What `scraper` finds in `html` for `selector`: for each matched
/// element, in document order, the value of the attribute named `attr`
/// (absent when the element lacks it) and the concatenation of the
/// element's text nodes. A pure function of its three arguments.
pub uninterp spec fn selected_nodes(html: Seq<char>, selector: Seq<char>, attr: Seq<char>) -> Seq<
    (Option<Seq<char>>, Seq<char>),
>;

/// Relies on scraper's `Html::parse_document`, `Selector::parse`,
/// `Html::select`, `ElementRef::attr` and `ElementRef::text`: parses
/// `html` and returns, per element matched by `selector` in document
/// order, the value of attribute `attr` and the element's text. An
/// invalid selector matches nothing.
#[verifier::external_body]
pub(crate) fn select_nodes(html: &str, selector: &str, attr: &str) -> (r: Vec<
    (Option<String>, String),
>)
    ensures
        r.deep_view() == selected_nodes(html@, selector@, attr@),
{
    let document = scraper::Html::parse_document(html);
    let parsed = match scraper::Selector::parse(selector) {
        Ok(parsed) => parsed,
        Err(_) => return Vec::new(),
    };
    document.select(&parsed).map(
        |element| (element.attr(attr).map(|v| v.to_string()), element.text().collect::<String>()),
    ).collect()
}

/// The albums denoted by a node list: entries with a link target and
/// non-empty text become an album whose URL is the target prefixed with
/// `base`; the rest are dropped.
pub open spec fn albums_of_nodes(
    nodes: Seq<(Option<Seq<char>>, Seq<char>)>,
    base: Seq<char>,
) -> Seq<AlbumView>
    decreases nodes.len(),
{
    if nodes.len() == 0 {
        Seq::empty()
    } else {
        let rest = albums_of_nodes(nodes.drop_last(), base);
        let node = nodes.last();
        match node.0 {
            Some(href) => if node.1.len() > 0 {
                rest.push(AlbumView { name: node.1, url: base + href })
            } else {
                rest
            },
            None => rest,
        }
    }
}

/// The picture locators denoted by a node list: every present attribute
/// value, in order.
pub open spec fn pictures_of_nodes(nodes: Seq<(Option<Seq<char>>, Seq<char>)>) -> Seq<Seq<char>>
    decreases nodes.len(),
{
    if nodes.len() == 0 {
        Seq::empty()
    } else {
        let rest = pictures_of_nodes(nodes.drop_last());
        match nodes.last().0 {
            Some(src) => rest.push(src),
            None => rest,
        }
    }
}

/// The albums listed in `html` under `selector`, each URL prefixed with
/// `base`.
pub open spec fn spec_albums_in(html: Seq<char>, selector: Seq<char>, base: Seq<char>) -> Seq<
    AlbumView,
> {
    albums_of_nodes(selected_nodes(html, selector, "href"@), base)
}

/// The picture URLs listed in `html` under `selector`.
pub open spec fn spec_pictures_in(html: Seq<char>, selector: Seq<char>) -> Seq<Seq<char>> {
    pictures_of_nodes(selected_nodes(html, selector, "src"@))
}

/// Extracts the albums of a result page: one per matched element that has
/// both a link target and visible text; entries missing either are
/// dropped, not failed.
pub fn extract_albums(html: &str, selector: &str, base: &str) -> (r: Vec<Album>)
    ensures
        r.deep_view() == spec_albums_in(html@, selector@, base@),
{
    let nodes = select_nodes(html, selector, "href");
    let ghost dv = nodes.deep_view();
    let mut r: Vec<Album> = Vec::new();
    let mut i: usize = 0;
    while i < nodes.len()
        invariant
            i <= nodes@.len(),
            dv == nodes.deep_view(),
            dv.len() == nodes@.len(),
            r.deep_view() =~= albums_of_nodes(dv.take(i as int), base@),
        decreases nodes@.len() - i,
    {
        proof {
            assert(dv.take(i + 1 as int).drop_last() =~= dv.take(i as int));
            assert(dv[i as int] == nodes@[i as int].deep_view());
        }
        let node = &nodes[i];
        match &node.0 {
            Some(href) => {
                if !node.1.as_str().is_empty() {
                    let mut url = String::from_str(base);
                    url.append(href.as_str());
                    let album = Album { name: node.1.clone(), url };
                    r.push(album);
                }
            },
            None => {},
        }
        i = i + 1;
    }
    proof {
        assert(dv.take(nodes@.len() as int) =~= dv);
    }
    r
}

/// Extracts the picture URLs of an album page: the source attribute of
/// every matched element that has one.
pub fn extract_pictures(html: &str, selector: &str) -> (r: Vec<String>)
    ensures
        r.deep_view() == spec_pictures_in(html@, selector@),
{
    let nodes = select_nodes(html, selector, "src");
    let ghost dv = nodes.deep_view();
    let mut r: Vec<String> = Vec::new();
    let mut i: usize = 0;
    while i < nodes.len()
        invariant
            i <= nodes@.len(),
            dv == nodes.deep_view(),
            dv.len() == nodes@.len(),
            r.deep_view() =~= pictures_of_nodes(dv.take(i as int)),
        decreases nodes@.len() - i,
    {
        proof {
            assert(dv.take(i + 1 as int).drop_last() =~= dv.take(i as int));
            assert(dv[i as int] == nodes@[i as int].deep_view());
        }
        let node = &nodes[i];
        match &node.0 {
            Some(src) => {
                r.push(src.clone());
            },
            None => {},
        }
        i = i + 1;
    }
    proof {
        assert(dv.take(nodes@.len() as int) =~= dv);
    }
    r
}

/// How many elements `selector` matches in `html`, capped at `u32::MAX`.
pub fn count_matches(html: &str, selector: &str) -> (r: u32)
    ensures
        r as nat == vstd::math::min(
            selected_nodes(html@, selector@, "href"@).len() as int,
            u32::MAX as int,
        ),
{
    let nodes = select_nodes(html, selector, "href");
    proof {
        assert(nodes.deep_view().len() == nodes@.len());
    }
    let n = nodes.len();
    if n >= u32::MAX as usize {
        u32::MAX
    } else {
        n as u32
    }
}

} // verus!
