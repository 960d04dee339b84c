use vstd::prelude::*;

use crate::errors::ScrapeError;
use crate::html::{html_select, node_view, nodes_view, select_nodes, HtmlNode, NodeView};
use crate::text::{chars_of, concat, starts_with, starts_with_exec};

verus! {

/// One result of a site search.
#[derive(Debug, PartialEq, Eq)]
pub struct SearchEntry {
    pub title: String,
    pub href: String,
    /// When the entry was published, as written in the page.
    pub date: String,
}

/// What a search entry is to the contracts: title, detail URL and date.
pub type EntryView = (Seq<char>, Seq<char>, Seq<char>);

pub open spec fn entry_view(e: SearchEntry) -> EntryView {
    (e.title@, e.href@, e.date@)
}

pub open spec fn entries_view(v: Seq<SearchEntry>) -> Seq<EntryView> {
    v.map_values(|e: SearchEntry| entry_view(e))
}

/// The decimal digits of `n`, without leading zeros.
pub open spec fn decimal(n: nat) -> Seq<char>
    decreases n,
{
    if n < 10 {
        seq![digit(n)]
    } else {
        decimal(n / 10).push(digit(n % 10))
    }
}

pub open spec fn digit(d: nat) -> char {
    if d == 0 { '0' } else if d == 1 { '1' } else if d == 2 { '2' } else if d == 3 { '3' }
    else if d == 4 { '4' } else if d == 5 { '5' } else if d == 6 { '6' } else if d == 7 { '7' }
    else if d == 8 { '8' } else { '9' }
}

fn digit_str(d: usize) -> (r: &'static str)
    requires
        d < 10,
    ensures
        r@ == seq![digit(d as nat)],
{
    proof {
        reveal_strlit("0");
        reveal_strlit("1");
        reveal_strlit("2");
        reveal_strlit("3");
        reveal_strlit("4");
        reveal_strlit("5");
        reveal_strlit("6");
        reveal_strlit("7");
        reveal_strlit("8");
        reveal_strlit("9");
    }
    let r = if d == 0 { "0" } else if d == 1 { "1" } else if d == 2 { "2" } else if d == 3 { "3" }
    else if d == 4 { "4" } else if d == 5 { "5" } else if d == 6 { "6" } else if d == 7 { "7" }
    else if d == 8 { "8" } else { "9" };
    assert(r@ =~= seq![digit(d as nat)]);
    r
}

/// `n` written in decimal.
pub fn decimal_string(n: usize) -> (r: String)
    ensures
        r@ == decimal(n as nat),
    decreases n,
{
    let mut r = if n < 10 {
        String::new()
    } else {
        decimal_string(n / 10)
    };
    r.append(digit_str(n % 10));
    proof {
        if n < 10 {
            assert(r@ =~= decimal(n as nat));
        }
    }
    r
}

/// The address of the `page`-th page of results for `query`.
pub open spec fn search_url_of(query: Seq<char>, page: nat) -> Seq<char> {
    "https://fitgirl-repacks.site/page/"@ + decimal(page) + "/?s="@ + query
}

/// The address of the `page`-th page of results for `query`.
pub fn search_url(query: &str, page: usize) -> (r: String)
    ensures
        r@ == search_url_of(query@, page as nat),
{
    let head = concat("https://fitgirl-repacks.site/page/", decimal_string(page).as_str());
    let head = concat(head.as_str(), "/?s=");
    concat(head.as_str(), query)
}

/// The texts, joined.
pub open spec fn joined(parts: Seq<Seq<char>>) -> Seq<char>
    decreases parts.len(),
{
    if parts.len() == 0 {
        seq![]
    } else {
        joined(parts.drop_last()) + parts.last()
    }
}

/// The date written when an entry carries none.
pub open spec fn epoch_date() -> Seq<char> {
    "1970-01-01T00:00:00+00:00"@
}

/// The entry read from an article's date elements and title links: the first title link
/// must have a target; its texts, joined, are the title. The date is the first date
/// element's `datetime`, or the epoch.
pub open spec fn entry_of(dates: Seq<NodeView>, titles: Seq<NodeView>) -> Option<EntryView> {
    if titles.len() > 0 && titles[0].2 is Some {
        let date = if dates.len() > 0 && dates[0].2 is Some {
            dates[0].2->0
        } else {
            epoch_date()
        };
        Some((joined(titles[0].1), titles[0].2->0, date))
    } else {
        None
    }
}

/// Whether an entry is a game: digests of updates are not.
pub open spec fn is_listed(title: Seq<char>) -> bool {
    !starts_with(title, "Updates Digest"@)
}

/// Reads one search entry out of an article's date elements and title links.
pub fn entry_from_nodes(dates: &Vec<HtmlNode>, titles: &Vec<HtmlNode>) -> (r: Option<
    SearchEntry,
>)
    ensures
        match entry_of(nodes_view(dates@), nodes_view(titles@)) {
            Some(e) => r matches Some(x) && entry_view(x) == e,
            None => r is None,
        },
{
    if titles.len() == 0 {
        return None;
    }
    let t = &titles[0];
    assert(nodes_view(titles@)[0] == node_view(*t));
    let href = match &t.attribute {
        Some(h) => h.clone(),
        None => return None,
    };
    let ghost tv = node_view(*t).1;
    let mut title = String::new();
    for i in 0..t.texts.len()
        invariant
            tv == node_view(*t).1,
            title@ == joined(tv.take(i as int)),
    {
        assert(tv.take(i + 1).drop_last() =~= tv.take(i as int));
        title.append(t.texts[i].as_str());
    }
    assert(tv.take(t.texts.len() as int) =~= tv);
    let mut date = String::from_str("1970-01-01T00:00:00+00:00");
    if dates.len() > 0 {
        let d = &dates[0];
        assert(nodes_view(dates@)[0] == node_view(*d));
        match &d.attribute {
            Some(v) => {
                date = v.clone();
            },
            None => {},
        }
    }
    Some(SearchEntry { title, href, date })
}

/// Whether a search entry is a game.
pub fn is_listed_title(title: &str) -> (r: bool)
    ensures
        r == is_listed(title@),
{
    !starts_with_exec(&chars_of(title), &chars_of("Updates Digest"))
}

/// The entry of one article of the results page, through the HTML query facility; `None`
/// when a selector is rejected.
pub open spec fn article_entry(article: Seq<char>) -> Option<Option<EntryView>> {
    match (
        html_select(article, "span.entry-date > a > time"@, "datetime"@),
        html_select(article, "h1.entry-title > a"@, "href"@),
    ) {
        (Some(dates), Some(titles)) => Some(entry_of(dates, titles)),
        _ => None,
    }
}

/// The listed entries of the articles, in order; `None` when a selector is rejected.
pub open spec fn listed_entries(articles: Seq<NodeView>) -> Option<Seq<EntryView>>
    decreases articles.len(),
{
    if articles.len() == 0 {
        Some(seq![])
    } else {
        match (listed_entries(articles.drop_last()), article_entry(articles.last().0)) {
            (Some(prev), Some(entry)) => match entry {
                Some(e) => if is_listed(e.0) {
                    Some(prev.push(e))
                } else {
                    Some(prev)
                },
                None => Some(prev),
            },
            _ => None,
        }
    }
}

/// Once a selector is rejected for one article, the whole page is.
proof fn lemma_rejected_prefix(articles: Seq<NodeView>, k: int)
    requires
        0 <= k <= articles.len(),
        listed_entries(articles.take(k)) is None,
    ensures
        listed_entries(articles) is None,
    decreases articles.len() - k,
{
    if k < articles.len() {
        assert(articles.take(k + 1).drop_last() =~= articles.take(k));
        lemma_rejected_prefix(articles, k + 1);
    } else {
        assert(articles.take(k) =~= articles);
    }
}

/// The entries of a results page, through the HTML query facility.
pub open spec fn search_results(document: Seq<char>) -> Option<Seq<EntryView>> {
    match html_select(document, "article.post"@, "id"@) {
        Some(articles) => listed_entries(articles),
        None => None,
    }
}

/// Reads the games listed on a page of search results, in page order. Articles without a
/// title link are passed over, and so are digests of updates.
pub fn parse_search_results(document: &str) -> (r: Result<Vec<SearchEntry>, ScrapeError>)
    ensures
        match search_results(document@) {
            Some(entries) => r matches Ok(v) && entries_view(v@) == entries,
            None => r matches Err(ScrapeError::InvalidCSSSelector),
        },
{
    let articles = match select_nodes(document, "article.post", "id") {
        Some(a) => a,
        None => return Err(ScrapeError::InvalidCSSSelector),
    };
    let ghost av = nodes_view(articles@);
    let mut entries: Vec<SearchEntry> = Vec::new();
    for i in 0..articles.len()
        invariant
            av == nodes_view(articles@),
            html_select(document@, "article.post"@, "id"@) == Some(av),
            listed_entries(av.take(i as int)) == Some(entries_view(entries@)),
    {
        let ghost pre = av.take(i as int);
        assert(av.take(i + 1).drop_last() =~= pre);
        let article = &articles[i];
        assert(av.take(i + 1).last() == node_view(*article));
        let fragment = article.fragment.as_str();
        let dates = select_nodes(fragment, "span.entry-date > a > time", "datetime");
        let titles = select_nodes(fragment, "h1.entry-title > a", "href");
        let (dates, titles) = match (dates, titles) {
            (Some(d), Some(t)) => (d, t),
            _ => {
                proof {
                    assert(article_entry(article.fragment@) is None);
                    assert(av.take(i + 1).last().0 == article.fragment@);
                    assert(listed_entries(av.take(i + 1)) is None);
                    lemma_rejected_prefix(av, i + 1);
                }
                return Err(ScrapeError::InvalidCSSSelector);
            },
        };
        match entry_from_nodes(&dates, &titles) {
            Some(e) => {
                if is_listed_title(e.title.as_str()) {
                    entries.push(e);
                    assert(entries_view(entries@) =~= entries_view(entries@).drop_last().push(
                        entry_view(e),
                    ));
                }
            },
            None => {},
        }
    }
    assert(av.take(articles.len() as int) =~= av);
    Ok(entries)
}

} // verus!
