use lmpic_downloader::api::{CommonResponse, Pagination, PaginationResponse};
use lmpic_downloader::download::{download_plan, MAX_CONCURRENT_DOWNLOADS};
use lmpic_downloader::html::{extract_albums, extract_pictures};
use lmpic_downloader::parser::SiteParser;
use lmpic_downloader::prompt::PromptContext;
use lmpic_downloader::text::{parse_u32, parse_usize, u32_to_string};
use lmpic_downloader::{default_headers, Album, FetchError, FetchRequest, Fetcher};

#[test]
fn decimal_parsing_accepts_numerals_and_rejects_the_rest() {
    assert_eq!(parse_u32("0"), Some(0));
    assert_eq!(parse_u32("+5"), Some(5));
    assert_eq!(parse_u32("4294967295"), Some(u32::MAX));
    assert_eq!(parse_u32("4294967296"), None);
    assert_eq!(parse_u32(""), None);
    assert_eq!(parse_u32("+"), None);
    assert_eq!(parse_u32("12a"), None);
    assert_eq!(parse_u32("-3"), None);
    assert_eq!(parse_usize("18"), Some(18));
    assert_eq!(parse_usize("x"), None);
}

#[test]
fn decimal_formatting_is_exact() {
    assert_eq!(u32_to_string(0), "0");
    assert_eq!(u32_to_string(7), "7");
    assert_eq!(u32_to_string(12345), "12345");
    assert_eq!(u32_to_string(u32::MAX), "4294967295");
}

#[test]
fn album_extraction_drops_incomplete_entries() {
    let html = "<html><body><div id=\"results\">\
        <div><h3><a href=\"http://a/1\">One</a></h3></div>\
        <div><h3><a>NoTarget</a></h3></div>\
        <div><h3><a href=\"http://a/3\"></a></h3></div>\
        <div><h3><a href=\"http://a/4\">Four</a></h3></div>\
        </div></body></html>";
    let albums = extract_albums(html, "#results>div>h3>a", "");
    assert_eq!(albums.len(), 2);
    assert_eq!(albums[0].name, "One");
    assert_eq!(albums[1].url, "http://a/4");

    let prefixed = extract_albums(html, "#results>div>h3>a", "http://base");
    assert_eq!(prefixed[0].url, "http://basehttp://a/1");
}

#[test]
fn picture_extraction_keeps_document_order() {
    let html = "<html><body><div class=\"imgbox\"><div class=\"img\">\
        <img src=\"http://p/1.jpg\"/><img/><img src=\"http://p/2.jpg\"/>\
        </div></div></body></html>";
    let pictures = extract_pictures(html, ".imgbox>.img>img");
    assert_eq!(pictures, ["http://p/1.jpg", "http://p/2.jpg"]);
}

#[test]
fn download_plan_sanitizes_the_album_directory() {
    struct OnePage;
    impl Fetcher for OnePage {
        fn fetch(&self, _request: &FetchRequest) -> Result<String, FetchError> {
            Ok("<html><body><div class=\"imgbox\"><div class=\"img\">\
                <img src=\"http://p/a.jpg@!rw9\"/><img src=\"http://p/b.jpg\"/>\
                </div></div></body></html>"
                .to_string())
        }
    }
    let album = Album { name: "CON".to_string(), url: "http://x/a.htm".to_string() };
    let plan = download_plan(&SiteParser::DiLi360, &OnePage, &album).unwrap();
    assert_eq!(plan.directory, "CON_");
    assert_eq!(plan.pictures, ["http://p/a.jpg@!rw9", "http://p/b.jpg"]);
    assert!(MAX_CONCURRENT_DOWNLOADS >= 1);
}

#[test]
fn prompt_shows_parser_keyword_and_position() {
    let bare = PromptContext::new("中国地理".to_string());
    assert_eq!(bare.prompt(), "[中国地理] -> ");
    let searching = PromptContext {
        keyword: Some("云南".to_string()),
        current: Some(2),
        total_page: Some(23),
        parser: "中国地理".to_string(),
    };
    assert_eq!(searching.prompt(), "[中国地理 <云南> (2/23)] -> ");
}

#[test]
fn response_envelopes_carry_code_message_and_payload() {
    let ok: CommonResponse<Vec<String>> = CommonResponse::success(vec!["a".to_string()]);
    assert_eq!(ok.code, 0);
    assert_eq!(ok.message, "success");
    assert_eq!(ok.data, Some(vec!["a".to_string()]));

    let fail: CommonResponse<Vec<String>> = CommonResponse::default_failure();
    assert_eq!(fail.code, -1);
    assert!(fail.data.is_none());

    let paged = PaginationResponse::success(vec![1u32], Pagination::new(2, 23));
    assert_eq!(paged.page, 2);
    assert_eq!(paged.page_total, 23);
    assert_eq!(paged.data, Some(vec![1u32]));

    let paged_fail =
        PaginationResponse::failure(-1, "search error".to_string(), Vec::<u32>::new(), Pagination::new(1, 0));
    assert_eq!(paged_fail.code, -1);
    assert_eq!(paged_fail.message, "search error");
}

#[test]
fn default_header_set_matches_the_fixed_profile() {
    let headers = default_headers();
    assert_eq!(headers.len(), 6);
    assert_eq!(headers[2], ("Accept-Language".to_string(), "en-US,en;q=0.9".to_string()));
    assert!(headers[0].1.starts_with("Mozilla/5.0"));
}
