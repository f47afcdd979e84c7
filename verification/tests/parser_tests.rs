use std::cell::RefCell;
use std::collections::HashMap;

use lmpic_downloader::parser::{parsers, SiteParser};
use lmpic_downloader::transliterate::keyword_to_pinyin;
use lmpic_downloader::{CoreError, FetchError, FetchRequest, Fetcher};

#[test]
fn test_keyword_to_pinyin() {
    let keyword = "左公子";
    let pinyin = keyword_to_pinyin(keyword);
    assert_eq!(pinyin, "zuogongzi".to_string());

    let keyword = "左公子11";
    let pinyin = keyword_to_pinyin(keyword);
    assert_eq!(pinyin, "zuogongzi11".to_string());
}

#[test]
fn registry_lists_both_sites() {
    let all = parsers();
    assert_eq!(all.len(), 2);
    assert_eq!(all[0], ("DILI360".to_string(), "中国地理".to_string()));
    assert_eq!(all[1], ("SFTK".to_string(), "私房图库".to_string()));
    assert_eq!(SiteParser::DiLi360.parser_name(), "中国地理");
    assert_eq!(SiteParser::Sftk.parser_name(), "私房图库");
}

/// Records every requested URL and serves a canned body per URL.
struct MapFetcher {
    pages: HashMap<String, String>,
    seen: RefCell<Vec<String>>,
}

impl Fetcher for MapFetcher {
    fn fetch(&self, request: &FetchRequest) -> Result<String, FetchError> {
        self.seen.borrow_mut().push(request.url.clone());
        match self.pages.get(&request.url) {
            Some(body) => Ok(body.clone()),
            None => Err(FetchError { message: format!("no page for {}", request.url) }),
        }
    }
}

#[test]
fn dili_search_url_shifts_to_zero_based_pages() {
    let html = "<html><body><div id=\"results\">\
        <div><h3><a href=\"http://www.dili360.com/article/9.htm\">风光</a></h3></div>\
        </div><div id=\"pageFooter\"><span class=\"pager-normal-foot\">4</span></div>\
        </body></html>";
    let url = "https://zhannei.baidu.com/cse/site?q=云南&p=1&nsid=&cc=www.dili360.com";
    let fetcher = MapFetcher {
        pages: HashMap::from([(url.to_string(), html.to_string())]),
        seen: RefCell::new(Vec::new()),
    };
    let (albums, total) = SiteParser::DiLi360.parse_albums(&fetcher, "云南", 2, 10).unwrap();
    assert_eq!(fetcher.seen.borrow().as_slice(), [url.to_string()]);
    assert_eq!(total, 4);
    assert_eq!(albums.len(), 1);
    assert_eq!(albums[0].name, "风光");
    assert_eq!(albums[0].url, "http://www.dili360.com/article/9.htm");
}

#[test]
fn sftk_search_url_embeds_the_romanised_keyword() {
    let html = "<html><body><div id=\"list\"><ul>\
        <div><div class=\"title\"><a href=\"/chis/zuogongzi/1.html\">左公子</a></div></div>\
        </ul></div>\
        <div class=\"pagelist\">1</div><div class=\"pagelist\">2</div>\
        </body></html>";
    let url = "http://www.sftuku.com/chis/zuogongzi11/3.html";
    let fetcher = MapFetcher {
        pages: HashMap::from([(url.to_string(), html.to_string())]),
        seen: RefCell::new(Vec::new()),
    };
    let (albums, total) = SiteParser::Sftk.parse_albums(&fetcher, "左公子11", 3, 10).unwrap();
    assert_eq!(fetcher.seen.borrow().as_slice(), [url.to_string()]);
    assert_eq!(total, 2);
    assert_eq!(albums.len(), 1);
    assert_eq!(albums[0].name, "左公子");
    assert_eq!(albums[0].url, "http://www.sftuku.com/chis/zuogongzi/1.html");
}

#[test]
fn sftk_requests_carry_the_legacy_encoding_and_host() {
    struct Inspecting;
    impl Fetcher for Inspecting {
        fn fetch(&self, request: &FetchRequest) -> Result<String, FetchError> {
            assert_eq!(request.encoding.as_deref(), Some("GBK"));
            assert!(request
                .headers
                .contains(&("Host".to_string(), "www.sftuku.com".to_string())));
            Err(FetchError { message: "stop here".to_string() })
        }
    }
    let r = SiteParser::Sftk.parse_albums(&Inspecting, "云南", 1, 10);
    assert!(matches!(r, Err(CoreError::Fetch(_))));
}

#[test]
fn sftk_missing_page_indicator_is_a_parse_error() {
    let html = "<html><body><div id=\"list\"><ul>\
        <div><div class=\"title\"><a href=\"/chis/a/1.html\">相册</a></div></div>\
        </ul></div></body></html>";
    assert_eq!(
        SiteParser::Sftk.parse_page_count(html),
        Err(CoreError::Parse)
    );
    let url = "http://www.sftuku.com/chis/xiangce/1.html";
    let fetcher = MapFetcher {
        pages: HashMap::from([(url.to_string(), html.to_string())]),
        seen: RefCell::new(Vec::new()),
    };
    let r = SiteParser::Sftk.parse_albums(&fetcher, "相册", 1, 10);
    assert!(matches!(r, Err(CoreError::Parse)));
}

#[test]
fn sftk_album_pictures_follow_every_sub_page_in_order() {
    let album = "http://www.sftuku.com/chis/zuogongzi/5.html";
    let main_html = "<html><body>\
        <div class=\"pagelist\"><a href=\"x\">2</a></div>\
        </body></html>";
    let pics = |urls: &[&str]| -> String {
        let mut body = String::from("<html><body><div id=\"picg\">");
        for u in urls {
            body.push_str(&format!(
                "<div class=\"slide\"><a href=\"z\"><img src=\"{u}\"/></a></div>"
            ));
        }
        body.push_str("</div></body></html>");
        body
    };
    let fetcher = MapFetcher {
        pages: HashMap::from([
            (album.to_string(), main_html.to_string()),
            (
                "http://www.sftuku.com/chis/zuogongzi/5_1.html".to_string(),
                pics(&["http://p/1.jpg", "http://p/2.jpg"]),
            ),
            (
                "http://www.sftuku.com/chis/zuogongzi/5_2.html".to_string(),
                pics(&["http://p/3.jpg"]),
            ),
        ]),
        seen: RefCell::new(Vec::new()),
    };
    let pictures = SiteParser::Sftk.get_all_pictures(&fetcher, album).unwrap();
    assert_eq!(
        pictures,
        ["http://p/1.jpg", "http://p/2.jpg", "http://p/3.jpg"]
    );
}

#[test]
fn picture_names_come_from_the_last_path_segment() {
    let dili = SiteParser::DiLi360;
    let sftk = SiteParser::Sftk;
    assert_eq!(
        dili.get_picture_name("http://img.dili360.com/ga/2020/1/a72.jpg@!rw9").unwrap(),
        "a72.jpg"
    );
    assert_eq!(dili.get_picture_name("plain.png").unwrap(), "plain.png");
    assert_eq!(
        sftk.get_picture_name("http://www.sftuku.com/img/b7.jpg@!rw9").unwrap(),
        "b7.jpg@!rw9"
    );
    assert_eq!(sftk.get_picture_name("http://host/x/y.jpg").unwrap(), "y.jpg");
    assert_eq!(dili.get_picture_name("///"), Err(CoreError::Naming));
    assert_eq!(sftk.get_picture_name(""), Err(CoreError::Naming));
}

#[test]
fn too_short_album_url_cannot_carry_sub_pages() {
    let fetcher = MapFetcher {
        pages: HashMap::from([("abc".to_string(), "<html></html>".to_string())]),
        seen: RefCell::new(Vec::new()),
    };
    assert_eq!(
        SiteParser::Sftk.get_all_pictures(&fetcher, "abc"),
        Err(CoreError::Parse)
    );
}
