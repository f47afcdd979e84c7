use lmpic_downloader::parser::{parse, SiteParser};
use lmpic_downloader::{AlbumSearcher, CoreError, FetchError, FetchRequest, Fetcher};

fn dili_page_html(albums: usize, total: u32) -> String {
    let mut items = String::new();
    for i in 1..=albums {
        items.push_str(&format!(
            "<div><h3><a href=\"http://www.dili360.com/article/{i}.htm\">Album {i}</a></h3></div>"
        ));
    }
    format!(
        "<html><body><div id=\"results\">{items}</div>\
         <div id=\"pageFooter\"><span class=\"pager-normal-foot\">{total}</span></div>\
         </body></html>"
    )
}

/// Serves the same synthetic result page for every request.
struct PageFetcher {
    albums: usize,
    total: u32,
}

impl Fetcher for PageFetcher {
    fn fetch(&self, _request: &FetchRequest) -> Result<String, FetchError> {
        Ok(dili_page_html(self.albums, self.total))
    }
}

/// Fails every request.
struct FailFetcher;

impl Fetcher for FailFetcher {
    fn fetch(&self, _request: &FetchRequest) -> Result<String, FetchError> {
        Err(FetchError { message: "connection refused".to_string() })
    }
}

#[test]
fn test_download_album() {
    let parser = lmpic_downloader::parser::default_parser();
    let fetcher = PageFetcher { albums: 10, total: 23 };
    let mut searcher = AlbumSearcher::new(parser, "云南", AlbumSearcher::DEFAULT_PAGE_SIZE);
    let _ = searcher.next(&fetcher);
    let ret = searcher.next(&fetcher);
    assert!(ret.is_ok());

    let opt = ret.unwrap();
    assert!(opt.is_some());

    let albums = opt.unwrap();
    assert_eq!(albums.len(), 10usize);

    match searcher.download(6) {
        Ok(_) => {
            println!("album downloaded.");
        }
        Err(err) => {
            println!("download album error: {err:?}");
        }
    }
}

#[test]
fn next_twice_discovers_total_and_positions_to_page_two() {
    let fetcher = PageFetcher { albums: 10, total: 23 };
    let mut searcher = AlbumSearcher::new(SiteParser::DiLi360, "云南", 10);
    let first = searcher.next(&fetcher).unwrap().unwrap();
    assert_eq!(first.len(), 10);
    assert_eq!(searcher.page(), 1);
    assert_eq!(searcher.page_count(), 23);
    let second = searcher.next(&fetcher).unwrap().unwrap();
    assert_eq!(second.len(), 10);
    assert_eq!(searcher.page(), 2);
    assert!(searcher.page_count() >= searcher.page());
}

#[test]
fn jump_clamps_to_first_and_last_page() {
    let fetcher = PageFetcher { albums: 10, total: 7 };
    let mut searcher = AlbumSearcher::new(SiteParser::DiLi360, "云南", 10);
    searcher.next(&fetcher).unwrap();
    assert_eq!(searcher.page_count(), 7);

    searcher.jump(&0, &fetcher).unwrap();
    assert_eq!(searcher.page(), 1);

    searcher.jump(&107, &fetcher).unwrap();
    assert_eq!(searcher.page(), 7);

    searcher.jump(&3, &fetcher).unwrap();
    assert_eq!(searcher.page(), 3);
}

#[test]
fn jump_on_a_fresh_searcher_discovers_the_total_first() {
    let fetcher = PageFetcher { albums: 10, total: 23 };
    let mut searcher = AlbumSearcher::new(SiteParser::DiLi360, "云南", 10);
    searcher.jump(&5, &fetcher).unwrap();
    assert_eq!(searcher.page(), 5);
    assert_eq!(searcher.page_count(), 23);

    let mut fresh = AlbumSearcher::new(SiteParser::DiLi360, "云南", 10);
    fresh.jump(&0, &fetcher).unwrap();
    assert_eq!(fresh.page(), 1);
}

#[test]
fn navigation_stays_within_bounds() {
    let fetcher = PageFetcher { albums: 10, total: 3 };
    let mut searcher = AlbumSearcher::new(SiteParser::DiLi360, "云南", 10);
    searcher.prev(&fetcher).unwrap();
    assert_eq!(searcher.page(), 1);
    searcher.next(&fetcher).unwrap();
    searcher.next(&fetcher).unwrap();
    searcher.next(&fetcher).unwrap();
    searcher.next(&fetcher).unwrap();
    assert_eq!(searcher.page(), 3);
    searcher.last(&fetcher).unwrap();
    assert_eq!(searcher.page(), 3);
    searcher.first(&fetcher).unwrap();
    assert_eq!(searcher.page(), 1);
    assert!(searcher.page() >= 1 && searcher.page() <= searcher.page_count());
}

#[test]
fn total_page_count_never_decreases() {
    let fetcher = PageFetcher { albums: 10, total: 23 };
    let mut searcher = AlbumSearcher::new(SiteParser::DiLi360, "云南", 10);
    searcher.next(&fetcher).unwrap();
    let discovered = searcher.page_count();
    let lower = PageFetcher { albums: 10, total: 5 };
    searcher.jump(&4, &lower).unwrap();
    assert_eq!(searcher.page_count(), discovered);
    let higher = PageFetcher { albums: 10, total: 40 };
    searcher.jump(&5, &higher).unwrap();
    assert_eq!(searcher.page_count(), 40);
}

#[test]
fn cache_evicts_least_recently_used_page() {
    let fetcher = PageFetcher { albums: 10, total: 100 };
    let mut searcher = AlbumSearcher::new(SiteParser::DiLi360, "云南", 10);
    for p in 1..=65u32 {
        searcher.jump(&p, &fetcher).unwrap();
    }
    assert!(!searcher.is_cached(1));
    assert!(searcher.is_cached(2));
    assert!(searcher.is_cached(65));
}

#[test]
fn cached_pages_need_no_fetch() {
    let fetcher = PageFetcher { albums: 10, total: 9 };
    let mut searcher = AlbumSearcher::new(SiteParser::DiLi360, "云南", 10);
    searcher.next(&fetcher).unwrap();
    assert!(searcher.is_cached(1));
    let albums = searcher.current(&FailFetcher).unwrap().unwrap();
    assert_eq!(albums.len(), 10);
}

#[test]
fn download_with_index_zero_is_invalid_and_fetches_nothing() {
    let fetcher = PageFetcher { albums: 10, total: 23 };
    let mut searcher = AlbumSearcher::new(SiteParser::DiLi360, "云南", 10);
    searcher.next(&fetcher).unwrap();
    // `download` takes no fetcher at all, so no network call is possible.
    assert_eq!(searcher.download(0), Err(CoreError::InvalidIndex));
    assert_eq!(searcher.download(11), Err(CoreError::InvalidIndex));
    let album = searcher.download(6).unwrap();
    assert_eq!(album.name, "Album 6");
    assert_eq!(album.url, "http://www.dili360.com/article/6.htm");
}

#[test]
fn download_before_any_search_is_no_data() {
    let mut searcher = AlbumSearcher::new(SiteParser::DiLi360, "云南", 10);
    assert_eq!(searcher.download(1), Err(CoreError::NoData));
}

#[test]
fn fetch_failure_propagates_as_fetch_error() {
    let mut searcher = AlbumSearcher::new(SiteParser::DiLi360, "云南", 10);
    match searcher.next(&FailFetcher) {
        Err(CoreError::Fetch(e)) => assert_eq!(e.message, "connection refused"),
        other => panic!("expected a fetch error, got {other:?}"),
    }
}

#[test]
fn missing_page_indicator_is_a_parse_error() {
    struct NoFooterFetcher;
    impl Fetcher for NoFooterFetcher {
        fn fetch(&self, _request: &FetchRequest) -> Result<String, FetchError> {
            Ok("<html><body><div id=\"results\"></div></body></html>".to_string())
        }
    }
    let mut searcher = AlbumSearcher::new(SiteParser::DiLi360, "云南", 10);
    assert_eq!(searcher.next(&NoFooterFetcher), Err(CoreError::Parse));
}

#[test]
fn unknown_parser_code_is_rejected() {
    assert!(matches!(parse("dili360"), Ok(SiteParser::DiLi360)));
    assert!(matches!(parse("Sftk"), Ok(SiteParser::Sftk)));
    assert_eq!(parse("nosuch"), Err(CoreError::UnknownParser));
}
