use vstd::prelude::*;

use crate::errors::ScrapeError;
use crate::html::{html_select, node_view, nodes_view, select_nodes, HtmlNode, NodeView};
use crate::text::{
    chars_of, find_from, find_from_exec, lemma_find_from, occurs_at, starts_with,
    starts_with_exec, strings_view, substring,
};

verus! {

/// A game page, read: the identifier of the game and its intermediary links.
#[derive(Debug)]
pub struct GameInfo {
    /// The first path segment of the game URL; names the output file.
    pub path_part: String,
    /// The intermediary links, in document order.
    pub fuckingfast_links: Vec<String>,
}

/// What a request for a game page is made of.
#[derive(Debug)]
pub struct ScrapeTarget {
    /// The first path segment of the game URL.
    pub path_part: String,
    /// The URL to request: the parsed URL's serialization.
    pub request_url: String,
    /// The value of the `Cookie` header to send, if any.
    pub cookie: Option<String>,
}

/// The parse of `input` as an absolute URL: its serialization and its path, or `None`
/// when it does not parse.
pub uninterp spec fn parsed_url(input: Seq<char>) -> Option<(Seq<char>, Seq<char>)>;

/// Relies on `url::Url::parse`, and on the parsed URL's `as_str` (its serialization) and
/// `path`.
#[verifier::external_body]
fn parse_url(input: &str) -> (r: Result<(String, String), url::ParseError>)
    ensures
        match r {
            Ok((s, p)) => parsed_url(input@) == Some((s@, p@)),
            Err(_) => parsed_url(input@) is None,
        },
{
    let url = url::Url::parse(input)?;
    Ok((url.as_str().to_string(), url.path().to_string()))
}

/// The first segment of a URL path: what lies between the leading `/` and the next `/`
/// (or the end). A path without a leading `/` has no segments.
pub open spec fn first_segment(path: Seq<char>) -> Option<Seq<char>> {
    if path.len() > 0 && path[0] == '/' {
        match find_from(path, seq!['/'], 1) {
            Some(k) => Some(path.subrange(1, k)),
            None => Some(path.subrange(1, path.len() as int)),
        }
    } else {
        None
    }
}

/// For a path `/seg` or `/seg/rest`, where `seg` holds no `/`, the first segment is `seg`
/// exactly: nothing is decoded and nothing else is stripped.
pub proof fn lemma_first_segment(seg: Seq<char>, rest: Seq<char>)
    requires
        !seg.contains('/'),
    ensures
        first_segment(seq!['/'] + seg) == Some(seg),
        first_segment(seq!['/'] + seg + seq!['/'] + rest) == Some(seg),
{
    let slash = seq!['/'];
    let p1 = slash + seg;
    let p2 = slash + seg + slash + rest;
    assert forall|j: int| 1 <= j < p1.len() implies !occurs_at(p1, slash, j) by {
        assert(p1.subrange(j, j + 1)[0] == seg[j - 1]);
    }
    lemma_find_from(p1, slash, 1);
    assert(p1.subrange(1, p1.len() as int) =~= seg);
    assert forall|j: int| 1 <= j < seg.len() + 1 implies !occurs_at(p2, slash, j) by {
        assert(p2.subrange(j, j + 1)[0] == seg[j - 1]);
    }
    assert(p2.subrange(seg.len() + 1int, seg.len() + 2int) =~= slash);
    assert(occurs_at(p2, slash, seg.len() + 1int));
    lemma_find_from(p2, slash, 1);
    assert(find_from(p2, slash, 1) == Some(seg.len() + 1int));
    assert(p2.subrange(1, seg.len() + 1int) =~= seg);
}

/// The identifier of a game: the first segment of its URL's path.
pub fn path_identifier(path: &str) -> (r: Result<String, ScrapeError>)
    ensures
        match first_segment(path@) {
            Some(seg) => r matches Ok(s) && s@ == seg,
            None => r matches Err(ScrapeError::UnexpectedURL),
        },
{
    let p = chars_of(path);
    if p.len() == 0 || p[0] != '/' {
        return Err(ScrapeError::UnexpectedURL);
    }
    let slash = vec!['/'];
    proof {
        assert(slash@ =~= seq!['/']);
    }
    match find_from_exec(&p, &slash, 1) {
        Some(k) => {
            proof {
                lemma_find_from(p@, slash@, 1);
            }
            Ok(substring(path, 1, k))
        },
        None => Ok(substring(path, 1, p.len())),
    }
}

/// Prepares the request for the game page at `url`: the URL must parse and have a first
/// path segment, which becomes the game's identifier. `cookies`, when present, is sent
/// along.
pub fn scrape_target(url: &str, cookies: &Option<String>) -> (r: Result<ScrapeTarget, ScrapeError>)
    ensures
        match parsed_url(url@) {
            None => r matches Err(ScrapeError::IllFormedURL(_)),
            Some((serialization, path)) => match first_segment(path) {
                None => r matches Err(ScrapeError::UnexpectedURL),
                Some(seg) => r matches Ok(t) && t.path_part@ == seg && t.request_url@
                    == serialization && t.cookie == *cookies,
            },
        },
{
    let (serialization, path) = match parse_url(url) {
        Ok(parts) => parts,
        Err(e) => return Err(ScrapeError::IllFormedURL(e)),
    };
    let path_part = path_identifier(path.as_str())?;
    let cookie = match cookies {
        Some(c) => Some(c.clone()),
        None => None,
    };
    Ok(ScrapeTarget { path_part, request_url: serialization, cookie })
}

/// An anchor whose first text is the label of the FuckingFast hoster.
pub open spec fn is_hoster_anchor(n: NodeView) -> bool {
    n.1.len() > 0 && n.1[0] == "Filehoster: FuckingFast"@
}

/// The index of the first hoster anchor at or after `i`.
pub open spec fn first_hoster_from(anchors: Seq<NodeView>, i: int) -> Option<int>
    decreases anchors.len() - i,
{
    if i < 0 || i >= anchors.len() {
        None
    } else if is_hoster_anchor(anchors[i]) {
        Some(i)
    } else {
        first_hoster_from(anchors, i + 1)
    }
}

/// The targets of `nodes` that point into the hosting domain, in order.
pub open spec fn hosted_links(nodes: Seq<NodeView>) -> Seq<Seq<char>>
    decreases nodes.len(),
{
    if nodes.len() == 0 {
        seq![]
    } else {
        let prev = hosted_links(nodes.drop_last());
        match nodes.last().2 {
            Some(h) => if starts_with(h, "https://fuckingfast.co"@) {
                prev.push(h)
            } else {
                prev
            },
            None => prev,
        }
    }
}

/// The intermediary links of a game page, given its top-level list anchors and the
/// anchors of its spoiler blocks.
///
/// A hoster anchor must exist. The spoiler links into the hosting domain are the links;
/// when there are none, the target of the first hoster anchor is the only one.
pub open spec fn game_links(anchors: Seq<NodeView>, spoiler: Seq<NodeView>) -> Result<
    Seq<Seq<char>>,
    ScrapeError,
> {
    match first_hoster_from(anchors, 0) {
        None => Err(ScrapeError::FuckingFastSourceMissing),
        Some(k) => if hosted_links(spoiler).len() > 0 {
            Ok(hosted_links(spoiler))
        } else {
            match anchors[k].2 {
                Some(h) => Ok(seq![h]),
                None => Err(ScrapeError::FuckingFastSourceMissing),
            }
        },
    }
}

/// Picks the intermediary links out of the anchors of a game page's list and of its
/// spoiler blocks.
pub fn links_from_nodes(anchors: &Vec<HtmlNode>, spoiler: &Vec<HtmlNode>) -> (r: Result<
    Vec<String>,
    ScrapeError,
>)
    ensures
        match game_links(nodes_view(anchors@), nodes_view(spoiler@)) {
            Ok(links) => r matches Ok(v) && strings_view(v@) == links,
            Err(e) => r == Err::<Vec<String>, ScrapeError>(e),
        },
        r matches Ok(v) ==> v@.len() > 0,
{
    let ghost av = nodes_view(anchors@);
    let label = String::from_str("Filehoster: FuckingFast");
    let mut k: usize = 0;
    while k < anchors.len()
        invariant
            k <= anchors.len(),
            av == nodes_view(anchors@),
            label@ == "Filehoster: FuckingFast"@,
            first_hoster_from(av, 0) == first_hoster_from(av, k as int),
        ensures
            k <= anchors.len(),
            first_hoster_from(av, 0) == first_hoster_from(av, k as int),
            k < anchors.len() ==> is_hoster_anchor(av[k as int]),
        decreases anchors.len() - k,
    {
        let n = &anchors[k];
        assert(av[k as int] == node_view(*n));
        if n.texts.len() > 0 && n.texts[0] == label {
            assert(av[k as int].1[0] == n.texts@[0]@);
            break;
        }
        assert(n.texts.len() > 0 ==> av[k as int].1[0] == n.texts@[0]@);
        k = k + 1;
    }
    if k == anchors.len() {
        return Err(ScrapeError::FuckingFastSourceMissing);
    }
    assert(first_hoster_from(av, 0) == Some(k as int));
    let ghost sv = nodes_view(spoiler@);
    let prefix = chars_of("https://fuckingfast.co");
    let mut links: Vec<String> = Vec::new();
    for i in 0..spoiler.len()
        invariant
            sv == nodes_view(spoiler@),
            prefix@ == "https://fuckingfast.co"@,
            strings_view(links@) == hosted_links(sv.take(i as int)),
    {
        assert(sv.take(i + 1).drop_last() =~= sv.take(i as int));
        match &spoiler[i].attribute {
            Some(h) => {
                if starts_with_exec(&chars_of(h.as_str()), &prefix) {
                    links.push(h.clone());
                    assert(strings_view(links@) =~= hosted_links(sv.take(i + 1)));
                }
            },
            None => {},
        }
    }
    assert(sv.take(spoiler.len() as int) =~= sv);
    if links.len() > 0 {
        return Ok(links);
    }
    match &anchors[k].attribute {
        Some(h) => {
            let v = vec![h.clone()];
            assert(strings_view(v@) =~= seq![h@]);
            Ok(v)
        },
        None => Err(ScrapeError::FuckingFastSourceMissing),
    }
}

/// The links of the document, through the HTML query facility.
pub open spec fn game_page_links(document: Seq<char>) -> Result<Seq<Seq<char>>, ScrapeError> {
    match (
        html_select(document, "div.entry-content > ul > li > a"@, "href"@),
        html_select(
            document,
            "div.entry-content > ul > li > div.su-spoiler > div.su-spoiler-content a"@,
            "href"@,
        ),
    ) {
        (Some(anchors), Some(spoiler)) => game_links(anchors, spoiler),
        _ => Err(ScrapeError::InvalidCSSSelector),
    }
}

/// Reads the intermediary links out of a game page.
pub fn parse_game_page(document: &str) -> (r: Result<Vec<String>, ScrapeError>)
    ensures
        match game_page_links(document@) {
            Ok(links) => r matches Ok(v) && strings_view(v@) == links,
            Err(e) => r == Err::<Vec<String>, ScrapeError>(e),
        },
        r matches Ok(v) ==> v@.len() > 0,
{
    let anchors = select_nodes(document, "div.entry-content > ul > li > a", "href");
    let spoiler = select_nodes(
        document,
        "div.entry-content > ul > li > div.su-spoiler > div.su-spoiler-content a",
        "href",
    );
    match (anchors, spoiler) {
        (Some(anchors), Some(spoiler)) => links_from_nodes(&anchors, &spoiler),
        _ => Err(ScrapeError::InvalidCSSSelector),
    }
}

/// Turns the answer to a game-page request into the game's information: a 403 means the
/// request was blocked; any other answer is read as the game page.
pub fn game_info_from_response(path_part: String, status: u16, body: &str) -> (r: Result<
    GameInfo,
    ScrapeError,
>)
    ensures
        status == 403 ==> r matches Err(ScrapeError::DDoSGuarded),
        status != 403 ==> match game_page_links(body@) {
            Ok(links) => r matches Ok(g) && g.path_part == path_part && strings_view(
                g.fuckingfast_links@,
            ) == links,
            Err(e) => r == Err::<GameInfo, ScrapeError>(e),
        },
        r matches Ok(g) ==> g.fuckingfast_links@.len() > 0,
{
    if status == 403 {
        return Err(ScrapeError::DDoSGuarded);
    }
    let fuckingfast_links = parse_game_page(body)?;
    Ok(GameInfo { path_part, fuckingfast_links })
}

} // verus!
