use fitgirl_ddl::html::HtmlNode;
use fitgirl_ddl::search::{
    decimal_string, entry_from_nodes, is_listed_title, parse_search_results, search_url,
    SearchEntry,
};

fn node(texts: &[&str], attribute: Option<&str>) -> HtmlNode {
    HtmlNode {
        fragment: String::new(),
        texts: texts.iter().map(|t| t.to_string()).collect(),
        attribute: attribute.map(|a| a.to_string()),
    }
}

const RESULTS: &str = r##"<html><body>
<article class="post" id="p1"><header>
<span class="entry-date"><a href="#"><time datetime="2024-05-01T10:00:00+00:00">May 1</time></a></span>
<h1 class="entry-title"><a href="https://fitgirl-repacks.site/game-one/">Game <b>One</b></a></h1>
</header></article>
<article class="post" id="p2"><header>
<span class="entry-date"><a href="#"><time datetime="2024-04-30T10:00:00+00:00">Apr 30</time></a></span>
<h1 class="entry-title"><a href="https://fitgirl-repacks.site/updates-digest/">Updates Digest for April</a></h1>
</header></article>
<article class="post" id="p3"><header>
<h1 class="entry-title"><a href="https://fitgirl-repacks.site/game-two/">Game Two</a></h1>
</header></article>
</body></html>"##;

#[test]
fn search_address() {
    assert_eq!(search_url("witcher", 2), "https://fitgirl-repacks.site/page/2/?s=witcher");
    assert_eq!(decimal_string(0), "0");
    assert_eq!(decimal_string(1207), "1207");
    assert_eq!(decimal_string(usize::MAX), usize::MAX.to_string());
}

#[test]
fn search_results_are_read_and_filtered() {
    let entries = parse_search_results(RESULTS).unwrap();
    assert_eq!(
        entries,
        vec![
            SearchEntry {
                title: "Game One".to_string(),
                href: "https://fitgirl-repacks.site/game-one/".to_string(),
                date: "2024-05-01T10:00:00+00:00".to_string(),
            },
            SearchEntry {
                title: "Game Two".to_string(),
                href: "https://fitgirl-repacks.site/game-two/".to_string(),
                date: "1970-01-01T00:00:00+00:00".to_string(),
            },
        ]
    );
    assert_eq!(parse_search_results("<html></html>").unwrap(), vec![]);
}

#[test]
fn search_entry_from_nodes() {
    let e = entry_from_nodes(&vec![node(&["x"], Some("2020"))], &vec![node(&["A ", "B"], Some("h"))])
        .unwrap();
    assert_eq!(e.title, "A B");
    assert_eq!(e.href, "h");
    assert_eq!(e.date, "2020");
    assert!(entry_from_nodes(&vec![], &vec![node(&["A"], None)]).is_none());
    assert!(entry_from_nodes(&vec![], &vec![]).is_none());
}

#[test]
fn digests_are_not_listed() {
    assert!(!is_listed_title("Updates Digest for May"));
    assert!(is_listed_title("Game - Updates Digest"));
    assert!(is_listed_title(""));
}
