use fitgirl_ddl::errors::{ExtractError, ScrapeError};
use fitgirl_ddl::extract::{
    classify_page, ddl_filename, ddl_from_nodes, ddl_from_response, parse_ddl_page, PageKind,
    DDL,
};
use fitgirl_ddl::html::HtmlNode;
use fitgirl_ddl::scrape::{
    game_info_from_response, links_from_nodes, parse_game_page, path_identifier, scrape_target,
};
use fitgirl_ddl::set_fg_cookies;

fn node(texts: &[&str], attribute: Option<&str>) -> HtmlNode {
    HtmlNode {
        fragment: String::new(),
        texts: texts.iter().map(|t| t.to_string()).collect(),
        attribute: attribute.map(|a| a.to_string()),
    }
}

const GAME_PAGE: &str = r#"<html><body><div class="entry-content">
<ul>
<li><a href="https://other.host/x">Filehoster: Other</a></li>
<li><a href="https://paste.example/abc">Filehoster: FuckingFast</a>
<div class="su-spoiler"><div class="su-spoiler-content">
<a href="https://fuckingfast.co/aaa#game.part1.rar">part 1</a><br>
<a href="https://elsewhere.example/zzz">mirror</a><br>
<a href="https://fuckingfast.co/bbb#game.part2.rar">part 2</a>
</div></div></li>
</ul></div></body></html>"#;

#[test]
fn identifier_is_first_path_segment() {
    let id = path_identifier("/the-bards-tale-iv-directors-cut/").unwrap();
    assert_eq!(id, "the-bards-tale-iv-directors-cut");
    assert_eq!(path_identifier("/a%20b/c/d").unwrap(), "a%20b");
    assert_eq!(path_identifier("/single").unwrap(), "single");
    assert_eq!(path_identifier("/").unwrap(), "");
    assert!(matches!(path_identifier("no-slash"), Err(ScrapeError::UnexpectedURL)));
    assert!(matches!(path_identifier(""), Err(ScrapeError::UnexpectedURL)));
}

#[test]
fn scrape_target_from_game_url() {
    let t = scrape_target("https://fitgirl-repacks.site/the-bards-tale-iv-directors-cut/", &None)
        .unwrap();
    assert_eq!(t.path_part, "the-bards-tale-iv-directors-cut");
    assert_eq!(t.request_url, "https://fitgirl-repacks.site/the-bards-tale-iv-directors-cut/");
    assert_eq!(t.cookie, None);
    let cookies = Some("a=1; b=2".to_string());
    let t = scrape_target("https://fitgirl-repacks.site/some%20game/x", &cookies).unwrap();
    assert_eq!(t.path_part, "some%20game");
    assert_eq!(t.cookie, cookies);
    // The serialization is the parser's: an empty path becomes "/".
    let t = scrape_target("https://fitgirl-repacks.site", &None).unwrap();
    assert_eq!(t.request_url, "https://fitgirl-repacks.site/");
    assert_eq!(t.path_part, "");
}

#[test]
fn scrape_target_rejects_bad_urls() {
    assert!(matches!(scrape_target("not a url", &None), Err(ScrapeError::IllFormedURL(_))));
    assert!(matches!(scrape_target("/relative/path", &None), Err(ScrapeError::IllFormedURL(_))));
    assert!(matches!(scrape_target("mailto:someone@example.com", &None), Err(ScrapeError::UnexpectedURL)));
}

#[test]
fn links_prefer_spoiler_links_in_hosting_domain() {
    let anchors = vec![
        node(&["Filehoster: Other"], Some("https://other.host/x")),
        node(&["Filehoster: FuckingFast"], Some("https://paste.example/abc")),
    ];
    let spoiler = vec![
        node(&["p1"], Some("https://fuckingfast.co/aaa#a.rar")),
        node(&["mirror"], Some("https://elsewhere.example/zzz")),
        node(&["nohref"], None),
        node(&["p2"], Some("https://fuckingfast.co/bbb#b.rar")),
    ];
    let links = links_from_nodes(&anchors, &spoiler).unwrap();
    assert_eq!(links, vec!["https://fuckingfast.co/aaa#a.rar", "https://fuckingfast.co/bbb#b.rar"]);
}

#[test]
fn links_fall_back_to_first_hoster_anchor() {
    let anchors = vec![
        node(&["Filehoster: FuckingFast"], Some("https://fuckingfast.co/one#x.rar")),
        node(&["Filehoster: FuckingFast"], Some("https://fuckingfast.co/two#y.rar")),
    ];
    let spoiler = vec![node(&["mirror"], Some("https://elsewhere.example/zzz"))];
    let links = links_from_nodes(&anchors, &spoiler).unwrap();
    assert_eq!(links, vec!["https://fuckingfast.co/one#x.rar"]);
}

#[test]
fn links_require_a_hoster_anchor_with_target() {
    let anchors = vec![node(&["Filehoster: Other"], Some("https://other.host/x")), node(&[], None)];
    assert!(matches!(
        links_from_nodes(&anchors, &vec![]),
        Err(ScrapeError::FuckingFastSourceMissing)
    ));
    let anchors = vec![node(&["Filehoster: FuckingFast"], None)];
    assert!(matches!(
        links_from_nodes(&anchors, &vec![]),
        Err(ScrapeError::FuckingFastSourceMissing)
    ));
    // Only the first text of the anchor is the label.
    let anchors = vec![node(&["Filehoster: ", "FuckingFast"], Some("https://fuckingfast.co/x"))];
    assert!(matches!(
        links_from_nodes(&anchors, &vec![]),
        Err(ScrapeError::FuckingFastSourceMissing)
    ));
}

#[test]
fn game_page_is_parsed() {
    let links = parse_game_page(GAME_PAGE).unwrap();
    assert_eq!(
        links,
        vec!["https://fuckingfast.co/aaa#game.part1.rar", "https://fuckingfast.co/bbb#game.part2.rar"]
    );
    assert!(matches!(
        parse_game_page("<html><body><p>nothing</p></body></html>"),
        Err(ScrapeError::FuckingFastSourceMissing)
    ));
}

#[test]
fn game_info_from_answer() {
    let g = game_info_from_response("game".to_string(), 200, GAME_PAGE).unwrap();
    assert_eq!(g.path_part, "game");
    assert_eq!(g.fuckingfast_links.len(), 2);
    assert!(matches!(
        game_info_from_response("game".to_string(), 403, GAME_PAGE),
        Err(ScrapeError::DDoSGuarded)
    ));
}

#[test]
fn filename_missing_without_fragment() {
    assert_eq!(ddl_filename("https://fuckingfast.co/abcdef"), Err(ExtractError::FilenameMissing));
    assert_eq!(ddl_filename("https://fuckingfast.co/abcdef#"), Err(ExtractError::FilenameMissing));
    assert_eq!(ddl_filename(""), Err(ExtractError::FilenameMissing));
}

#[test]
fn filename_is_text_after_first_hash() {
    assert_eq!(ddl_filename("https://fuckingfast.co/abc#game.part01.rar").unwrap(), "game.part01.rar");
    assert_eq!(ddl_filename("u#a#b").unwrap(), "a#b");
    assert_eq!(ddl_filename("#x").unwrap(), "x");
}

#[test]
fn page_markers_are_classified() {
    assert_eq!(classify_page("<p>You hit the rate limit, slow down</p>"), PageKind::RateLimited);
    assert_eq!(classify_page("File Not Found Or Deleted"), PageKind::FileDeleted);
    assert_eq!(classify_page("rate limit and File Not Found Or Deleted"), PageKind::RateLimited);
    assert_eq!(classify_page("Rate Limit"), PageKind::Download);
    assert_eq!(classify_page(""), PageKind::Download);
}

#[test]
fn direct_link_from_script_nodes() {
    let scripts = vec![node(&["var x = 1; window.open(\"https://dl.example/f?t=1\"); y"], None)];
    assert_eq!(ddl_from_nodes(&scripts).unwrap(), "https://dl.example/f?t=1");
    assert_eq!(ddl_from_nodes(&vec![]), Err(ExtractError::DDLMissing));
    assert_eq!(ddl_from_nodes(&vec![node(&[], None)]), Err(ExtractError::DDLMissing));
    assert_eq!(
        ddl_from_nodes(&vec![node(&["window.open('x')"], None)]),
        Err(ExtractError::DDLMissing)
    );
    assert_eq!(
        ddl_from_nodes(&vec![node(&["window.open(\"unterminated"], None)]),
        Err(ExtractError::DDLMissing)
    );
}

#[test]
fn intermediary_page_is_resolved() {
    let body = r#"<html><body><div class="mx-auto"><script>function d(){window.open("https://dl.example/file.rar")}</script></div></body></html>"#;
    assert_eq!(parse_ddl_page(body).unwrap(), "https://dl.example/file.rar");
    let d = ddl_from_response("file.rar".to_string(), body).unwrap();
    assert_eq!(
        d,
        DDL { filename: "file.rar".to_string(), direct_link: "https://dl.example/file.rar".to_string() }
    );
    assert_eq!(
        ddl_from_response("f".to_string(), "<html><body>nothing</body></html>"),
        Err(ExtractError::DDLMissing)
    );
}

#[test]
fn response_markers_become_errors() {
    assert_eq!(
        ddl_from_response("a.rar".to_string(), "<p>rate limit</p>"),
        Err(ExtractError::RateLimited)
    );
    assert_eq!(
        ddl_from_response("a.rar".to_string(), "<h1>File Not Found Or Deleted</h1>"),
        Err(ExtractError::FileNotFound("a.rar".to_string()))
    );
}

#[test]
fn error_messages() {
    assert_eq!(ScrapeError::FuckingFastSourceMissing.message(), "fuckingfast.co source was missing");
    assert_eq!(ScrapeError::RequestError("boom".to_string()).message(), "request: boom");
    assert_eq!(ScrapeError::DDoSGuarded.message(), "blocked by DDoS protection");
    let e = scrape_target("not a url", &None).unwrap_err();
    assert_eq!(e.message(), "ill-formed url: relative URL without a base");
    assert_eq!(ExtractError::RateLimited.message(), "rate limited");
    assert_eq!(ExtractError::FileNotFound("x".to_string()).message(), "file was deleted");
    assert_eq!(ExtractError::RequestError("t".to_string()).message(), "request: t");
}

#[test]
fn cookies_are_set_once() {
    let mut slot = None;
    assert_eq!(set_fg_cookies(&mut slot, "a=1".to_string()), Ok(()));
    assert_eq!(slot.as_deref(), Some("a=1"));
    assert_eq!(set_fg_cookies(&mut slot, "b=2".to_string()), Err("b=2".to_string()));
    assert_eq!(slot.as_deref(), Some("a=1"));
}
