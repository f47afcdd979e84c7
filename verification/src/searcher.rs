//! The pagination engine: one keyword-scoped search over one site.
//!
//! A searcher tracks the current page index and the lazily discovered
//! total page count, and memoizes fetched pages in a bounded
//! least-recently-used cache. Its contracts carry the laws of the
//! engine: the resolved page always lies in `[1, page_count]` once the
//! total is known, the total never decreases over the searcher's
//! lifetime, and `jump` clamps its argument into range.

use vstd::prelude::*;
use vstd::string::*;

use crate::album::Album;
use crate::cache::{lemma_contains_iff_lookup, PageCache, PAGE_CACHE_CAPACITY};
use crate::errors::CoreError;
use crate::fetch::Fetcher;
use crate::parser::SiteParser;

verus! {

/// A keyword-scoped search: current position, known total, and the page
/// cache.
pub struct AlbumSearcher {
    parser: SiteParser,
    page: u32,
    page_count: u32,
    size: u32,
    keyword: String,
    albums: PageCache,
}

impl AlbumSearcher {
    /// The page size used when a caller passes zero.
    pub const DEFAULT_PAGE_SIZE: u32 = 10;

    /// The law of navigation: every operation preserves well-formedness,
    /// so after any sequence of `next`, `prev` and `jump` calls the
    /// resolved page index lies in `[1, page_count]` once the total page
    /// count is known.
    pub proof fn lemma_page_in_range(&self)
        requires
            self.wf(),
            self.spec_page_count() > 0,
        ensures
            1 <= self.spec_page() <= self.spec_page_count(),
    {
    }

    /// The site parser the search runs against.
    pub closed spec fn spec_parser(&self) -> SiteParser {
        self.parser
    }

    /// The current page index; 0 means "not yet positioned".
    pub closed spec fn spec_page(&self) -> u32 {
        self.page
    }

    /// The known total page count; 0 means "not yet discovered".
    pub closed spec fn spec_page_count(&self) -> u32 {
        self.page_count
    }

    /// The page size requested at construction.
    pub closed spec fn spec_size(&self) -> u32 {
        self.size
    }

    /// The keyword the search is scoped to.
    pub closed spec fn spec_keyword(&self) -> Seq<char> {
        self.keyword@
    }

    /// The page cache.
    pub closed spec fn cache(&self) -> PageCache {
        self.albums
    }

    /// Well-formed: the cache is sound and sized as fixed, and the page
    /// index lies in `[1, page_count]` once the total is known, at most
    /// 1 before.
    pub open spec fn wf(&self) -> bool {
        &&& self.cache().wf()
        &&& self.cache().capacity() == PAGE_CACHE_CAPACITY
        &&& self.spec_page_count() > 0 ==> 1 <= self.spec_page() <= self.spec_page_count()
        &&& self.spec_page_count() == 0 ==> self.spec_page() <= 1
    }

    /// The fields fixed at construction are untouched.
    pub open spec fn same_search(&self, other: &Self) -> bool {
        &&& self.spec_parser() == other.spec_parser()
        &&& self.spec_keyword() == other.spec_keyword()
        &&& self.spec_size() == other.spec_size()
    }

    /// A fresh, unpositioned searcher; a `size` below 1 falls back to
    /// the default page size.
    pub fn new(parser: SiteParser, keyword: &str, size: u32) -> (s: AlbumSearcher)
        ensures
            s.wf(),
            s.spec_parser() == parser,
            s.spec_keyword() == keyword@,
            s.spec_page() == 0,
            s.spec_page_count() == 0,
            s.spec_size() == if size < 1 { Self::DEFAULT_PAGE_SIZE } else { size },
            s.cache().entries().len() == 0,
    {
        let size = if size < 1 { Self::DEFAULT_PAGE_SIZE } else { size };
        AlbumSearcher {
            parser,
            page: 0,
            page_count: 0,
            size,
            keyword: String::from_str(keyword),
            albums: PageCache::new(PAGE_CACHE_CAPACITY),
        }
    }

    /// The current page index; 0 while unpositioned.
    pub fn page(&self) -> (r: u32)
        ensures
            r == self.spec_page(),
    {
        self.page
    }

    /// The known total page count; 0 while undiscovered.
    pub fn page_count(&self) -> (r: u32)
        ensures
            r == self.spec_page_count(),
    {
        self.page_count
    }

    /// Whether `page` is currently held in the cache.
    pub fn is_cached(&self, page: u32) -> (r: bool)
        ensures
            r == self.cache().keys().contains(page),
    {
        self.albums.contains(page)
    }

    /// Resolves the current page: from the cache when it holds the page,
    /// else by fetching and parsing it, raising the known total to any
    /// larger reported one and caching the result.
    fn get_albums<F: Fetcher>(&mut self, fetcher: &F) -> (r: Result<
        Option<Vec<Album>>,
        CoreError,
    >)
        requires
            old(self).wf(),
            old(self).spec_page() >= 1,
        ensures
            final(self).wf(),
            final(self).same_search(old(self)),
            final(self).spec_page() == old(self).spec_page(),
            final(self).spec_page_count() >= old(self).spec_page_count(),
            old(self).cache().keys().contains(old(self).spec_page()) ==> r is Ok
                && final(self).spec_page_count() == old(self).spec_page_count()
                && final(self).cache().entries().len() == old(self).cache().entries().len()
                && (forall|k: u32|
                    final(self).cache().lookup(k) == old(self).cache().lookup(k)),
            r is Err ==> final(self).cache().entries() == old(self).cache().entries()
                && final(self).spec_page_count() == old(self).spec_page_count(),
            r matches Ok(o) ==> (o matches Some(albums) && final(self).cache().lookup(
                final(self).spec_page(),
            ) == Some(albums.deep_view())),
            r matches Err(e) ==> (e is Fetch || e is Parse),
    {
        let page = self.page;
        if self.albums.contains(page) {
            match self.albums.get(page) {
                Some(albums) => Ok(Some(albums)),
                None => Ok(None),
            }
        } else {
            let parser = self.parser;
            let fetched = parser.parse_albums(fetcher, self.keyword.as_str(), page, self.size);
            let (albums, reported) = match fetched {
                Ok(p) => p,
                Err(e) => {
                    return Err(e);
                },
            };
            if self.page_count == 0 || self.page_count < reported {
                self.page_count = reported;
            }
            self.albums.insert(page, albums);
            match self.albums.get(page) {
                Some(albums) => Ok(Some(albums)),
                None => Ok(None),
            }
        }
    }

    /// Resolves the current page, positioning to page 1 first when the
    /// total is still unknown.
    pub fn current<F: Fetcher>(&mut self, fetcher: &F) -> (r: Result<
        Option<Vec<Album>>,
        CoreError,
    >)
        requires
            old(self).wf(),
        ensures
            final(self).wf(),
            final(self).same_search(old(self)),
            final(self).spec_page() >= 1,
            final(self).spec_page_count() >= old(self).spec_page_count(),
            old(self).spec_page_count() == 0 ==> final(self).spec_page() == 1,
            old(self).spec_page_count() > 0 ==> final(self).spec_page() == old(self).spec_page(),
            old(self).cache().keys().contains(
                if old(self).spec_page_count() == 0 { 1u32 } else { old(self).spec_page() },
            ) ==> r is Ok
                && final(self).spec_page_count() == old(self).spec_page_count()
                && (forall|k: u32|
                    final(self).cache().lookup(k) == old(self).cache().lookup(k)),
            r is Err ==> final(self).cache().entries() == old(self).cache().entries()
                && final(self).spec_page_count() == old(self).spec_page_count(),
            r matches Ok(o) ==> (o matches Some(albums) && final(self).cache().lookup(
                final(self).spec_page(),
            ) == Some(albums.deep_view())),
            r matches Err(e) ==> (e is Fetch || e is Parse),
    {
        if self.page_count == 0 {
            self.page = 1;
        }
        self.get_albums(fetcher)
    }

    /// Positions to page 1 and resolves it.
    pub fn first<F: Fetcher>(&mut self, fetcher: &F) -> (r: Result<
        Option<Vec<Album>>,
        CoreError,
    >)
        requires
            old(self).wf(),
        ensures
            final(self).wf(),
            final(self).same_search(old(self)),
            final(self).spec_page() == 1,
            final(self).spec_page_count() >= old(self).spec_page_count(),
            old(self).cache().keys().contains(1u32) ==> r is Ok
                && final(self).spec_page_count() == old(self).spec_page_count()
                && (forall|k: u32|
                    final(self).cache().lookup(k) == old(self).cache().lookup(k)),
            r is Err ==> final(self).cache().entries() == old(self).cache().entries()
                && final(self).spec_page_count() == old(self).spec_page_count(),
            r matches Ok(o) ==> (o matches Some(albums) && final(self).cache().lookup(1)
                == Some(albums.deep_view())),
            r matches Err(e) ==> (e is Fetch || e is Parse),
    {
        self.page = 1;
        self.get_albums(fetcher)
    }

    /// Steps one page back, stopping at page 1, and resolves the result.
    pub fn prev<F: Fetcher>(&mut self, fetcher: &F) -> (r: Result<
        Option<Vec<Album>>,
        CoreError,
    >)
        requires
            old(self).wf(),
        ensures
            final(self).wf(),
            final(self).same_search(old(self)),
            final(self).spec_page() >= 1,
            final(self).spec_page_count() >= old(self).spec_page_count(),
            old(self).spec_page() > 1 ==> final(self).spec_page() == old(self).spec_page() - 1,
            old(self).spec_page() <= 1 ==> final(self).spec_page() == 1,
            old(self).cache().keys().contains(
                if old(self).spec_page() > 1 { (old(self).spec_page() - 1) as u32 } else { 1u32 },
            ) ==> r is Ok
                && final(self).spec_page_count() == old(self).spec_page_count()
                && (forall|k: u32|
                    final(self).cache().lookup(k) == old(self).cache().lookup(k)),
            r is Err ==> final(self).cache().entries() == old(self).cache().entries()
                && final(self).spec_page_count() == old(self).spec_page_count(),
            r matches Ok(o) ==> (o matches Some(albums) && final(self).cache().lookup(
                final(self).spec_page(),
            ) == Some(albums.deep_view())),
            r matches Err(e) ==> (e is Fetch || e is Parse),
    {
        if self.page > 1 {
            self.page = self.page - 1;
        } else {
            self.page = 1;
        }
        self.get_albums(fetcher)
    }

    /// Steps one page forward — staying at the last page once there, and
    /// positioning to page 1 while the total is unknown — and resolves
    /// the result.
    pub fn next<F: Fetcher>(&mut self, fetcher: &F) -> (r: Result<
        Option<Vec<Album>>,
        CoreError,
    >)
        requires
            old(self).wf(),
        ensures
            final(self).wf(),
            final(self).same_search(old(self)),
            final(self).spec_page() >= 1,
            final(self).spec_page_count() >= old(self).spec_page_count(),
            old(self).spec_page_count() == 0 ==> final(self).spec_page() == 1,
            old(self).spec_page_count() > 0 && old(self).spec_page() < old(
                self,
            ).spec_page_count() ==> final(self).spec_page() == old(self).spec_page() + 1,
            old(self).spec_page_count() > 0 && old(self).spec_page() >= old(
                self,
            ).spec_page_count() ==> final(self).spec_page() == old(self).spec_page(),
            old(self).cache().keys().contains(
                if old(self).spec_page_count() == 0 {
                    1u32
                } else if old(self).spec_page() < old(self).spec_page_count() {
                    (old(self).spec_page() + 1) as u32
                } else {
                    old(self).spec_page()
                },
            ) ==> r is Ok
                && final(self).spec_page_count() == old(self).spec_page_count()
                && (forall|k: u32|
                    final(self).cache().lookup(k) == old(self).cache().lookup(k)),
            r is Err ==> final(self).cache().entries() == old(self).cache().entries()
                && final(self).spec_page_count() == old(self).spec_page_count(),
            r matches Ok(o) ==> (o matches Some(albums) && final(self).cache().lookup(
                final(self).spec_page(),
            ) == Some(albums.deep_view())),
            r matches Err(e) ==> (e is Fetch || e is Parse),
    {
        if self.page_count == 0 {
            self.page = 1;
        } else if self.page < self.page_count {
            self.page = self.page + 1;
        }
        self.get_albums(fetcher)
    }

    /// Positions to the last page — discovering the total with one
    /// forward step first when it is unknown — and resolves it.
    pub fn last<F: Fetcher>(&mut self, fetcher: &F) -> (r: Result<
        Option<Vec<Album>>,
        CoreError,
    >)
        requires
            old(self).wf(),
        ensures
            final(self).wf(),
            final(self).same_search(old(self)),
            final(self).spec_page_count() >= old(self).spec_page_count(),
            old(self).spec_page_count() > 0 ==> final(self).spec_page() == old(
                self,
            ).spec_page_count(),
            old(self).spec_page_count() == 0 && r is Ok && final(self).spec_page_count() > 0
                ==> 1 <= final(self).spec_page() <= final(self).spec_page_count(),
            old(self).spec_page_count() > 0 && old(self).cache().keys().contains(
                old(self).spec_page_count(),
            ) ==> r is Ok && final(self).spec_page_count() == old(self).spec_page_count()
                && final(self).spec_page() == final(self).spec_page_count(),
            r matches Ok(o) ==> final(self).spec_page() >= 1,
            r matches Ok(o) ==> (o matches Some(albums) && final(self).cache().lookup(
                final(self).spec_page(),
            ) == Some(albums.deep_view())),
            r matches Err(e) ==> (e is Fetch || e is Parse),
    {
        if self.page_count == 0 {
            match self.next(fetcher) {
                Ok(_) => (),
                Err(e) => {
                    return Err(e);
                },
            }
        }
        let ghost discovered = self.page_count;
        proof {
            lemma_contains_iff_lookup(self.cache().entries(), self.page);
        }
        if self.page_count > 0 {
            self.page = self.page_count;
        }
        let r = self.get_albums(fetcher);
        proof {
            if old(self).spec_page_count() == 0 && r is Ok && self.spec_page_count() > 0 {
                assert(1 <= discovered <= self.spec_page_count() && self.spec_page()
                    == discovered);
            }
        }
        r
    }

    /// Jumps to page `n`, clamped into `[1, page_count]`: anything below
    /// 1 resolves to page 1, anything above the known total to the last
    /// page. While the total is unknown, a discovery fetch (one forward
    /// step) runs first.
    pub fn jump<F: Fetcher>(&mut self, page: &u32, fetcher: &F) -> (r: Result<
        Option<Vec<Album>>,
        CoreError,
    >)
        requires
            old(self).wf(),
        ensures
            final(self).wf(),
            final(self).same_search(old(self)),
            final(self).spec_page() >= 1,
            final(self).spec_page_count() >= old(self).spec_page_count(),
            *page < 1 ==> final(self).spec_page() == 1,
            *page >= 1 && old(self).spec_page_count() > 0 ==> final(self).spec_page()
                == vstd::math::min(*page as int, old(self).spec_page_count() as int),
            *page >= 1 ==> final(self).spec_page() <= *page,
            *page >= 1 && old(self).spec_page_count() == 0 && r is Ok
                && final(self).spec_page_count() > 0 ==> exists|c: u32|
                1 <= c <= final(self).spec_page_count() && final(self).spec_page()
                    == vstd::math::min(*page as int, c as int),
            r matches Ok(o) ==> (o matches Some(albums) && final(self).cache().lookup(
                final(self).spec_page(),
            ) == Some(albums.deep_view())),
            r matches Err(e) ==> (e is Fetch || e is Parse),
    {
        let n = *page;
        if n < 1 {
            self.page = 1;
            return self.get_albums(fetcher);
        }
        if self.page_count == 0 {
            match self.next(fetcher) {
                Ok(_) => (),
                Err(e) => {
                    return Err(e);
                },
            }
        }
        let ghost discovered = self.page_count;
        proof {
            lemma_contains_iff_lookup(self.cache().entries(), self.page);
        }
        if self.page_count >= 1 {
            self.page = if self.page_count < n {
                self.page_count
            } else {
                n
            };
        }
        let r = self.get_albums(fetcher);
        proof {
            if old(self).spec_page_count() == 0 && r is Ok && self.spec_page_count() > 0 {
                assert(1 <= discovered <= self.spec_page_count() && self.spec_page()
                    == vstd::math::min(n as int, discovered as int));
            }
        }
        r
    }

    /// Selects the `idx`-th (1-based) album of the current page's cached
    /// list for downloading. Fails with `NoData` before any page was
    /// resolved or when the current page is not cached, and with
    /// `InvalidIndex` when `idx` is 0 or past the end of the list. No
    /// fetch is involved.
    pub fn download(&mut self, idx: usize) -> (r: Result<Album, CoreError>)
        requires
            old(self).wf(),
        ensures
            final(self).wf(),
            final(self).same_search(old(self)),
            final(self).spec_page() == old(self).spec_page(),
            final(self).spec_page_count() == old(self).spec_page_count(),
            forall|k: u32| final(self).cache().lookup(k) == old(self).cache().lookup(k),
            old(self).spec_page_count() == 0 || old(self).spec_page() == 0 ==> (r matches Err(e)
                && e is NoData),
            old(self).spec_page_count() > 0 && old(self).spec_page() > 0 && idx == 0 ==> (
            r matches Err(e) && e is InvalidIndex),
            old(self).spec_page_count() > 0 && old(self).spec_page() > 0 && idx >= 1 ==> match old(
                self,
            ).cache().lookup(old(self).spec_page()) {
                Some(list) => {
                    &&& idx > list.len() ==> (r matches Err(e) && e is InvalidIndex)
                    &&& idx <= list.len() ==> (r matches Ok(a) && a.deep_view() == list[
                        idx - 1
                    ])
                },
                None => r matches Err(e) && e is NoData,
            },
    {
        if self.page_count == 0 {
            return Err(CoreError::NoData);
        }
        if self.page == 0 {
            return Err(CoreError::NoData);
        }
        if idx == 0 {
            return Err(CoreError::InvalidIndex);
        }
        proof {
            lemma_contains_iff_lookup(self.albums.entries(), self.page);
        }
        let page = self.page;
        match self.albums.get(page) {
            Some(mut albums) => {
                let ghost dv = albums.deep_view();
                proof {
                    assert(dv.len() == albums@.len());
                }
                if idx > albums.len() {
                    return Err(CoreError::InvalidIndex);
                }
                let album = albums.remove(idx - 1);
                proof {
                    assert(dv[idx - 1] == album.deep_view());
                }
                Ok(album)
            },
            None => Err(CoreError::NoData),
        }
    }
}

/// The law of the total: every operation's contract carries a
/// non-decreasing `page_count`, so along any chain of states one
/// searcher passes through, the first total is at most the last.
pub proof fn lemma_total_never_decreases(totals: Seq<u32>)
    requires
        totals.len() > 0,
        forall|i: int| 0 <= i < totals.len() - 1 ==> #[trigger] totals[i] <= totals[i + 1],
    ensures
        totals[0] <= totals.last(),
    decreases totals.len(),
{
    if totals.len() > 1 {
        let d = totals.drop_last();
        assert forall|i: int| 0 <= i < d.len() - 1 implies #[trigger] d[i] <= d[i + 1] by {
            assert(d[i] == totals[i]);
            assert(d[i + 1] == totals[i + 1]);
        }
        lemma_total_never_decreases(d);
        assert(totals[totals.len() - 2] <= totals[totals.len() - 1]);
        assert(d.last() == totals[totals.len() - 2]);
    }
}

} // verus!
