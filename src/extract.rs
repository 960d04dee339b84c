use vstd::prelude::*;

use crate::errors::ExtractError;
use crate::html::{html_select, node_view, nodes_view, select_nodes, HtmlNode, NodeView};
use crate::text::{
    chars_of, contains, contains_exec, find, find_from_exec, lemma_find_from, split_once,
    split_once_exec, substring,
};

verus! {

/// A resolved intermediary link: the file's name and where to download it directly.
#[derive(Debug, PartialEq, Eq, Clone)]
pub struct DDL {
    pub filename: String,
    pub direct_link: String,
}

/// What the body of an intermediary page says about the file.
#[derive(Debug, PartialEq, Eq, Clone, Copy)]
pub enum PageKind {
    /// The host refuses further requests for now.
    RateLimited,
    /// The host no longer has the file.
    FileDeleted,
    /// The page is expected to hold the download link.
    Download,
}

/// The filename of an intermediary URL: everything after its first `#`; none when there is
/// no `#` or nothing follows it.
pub open spec fn url_filename(url: Seq<char>) -> Option<Seq<char>> {
    match find(url, seq!['#']) {
        Some(k) => if k + 1 < url.len() {
            Some(url.subrange(k + 1, url.len() as int))
        } else {
            None
        },
        None => None,
    }
}

/// An URL without `#` has no filename.
pub proof fn lemma_no_fragment_no_filename(url: Seq<char>)
    requires
        !url.contains('#'),
    ensures
        url_filename(url) is None,
{
    lemma_find_from(url, seq!['#'], 0);
    if find(url, seq!['#']) is Some {
        let k = find(url, seq!['#'])->0;
        assert(url.subrange(k, k + 1)[0] == url[k]);
    }
}

/// Takes the filename out of an intermediary URL. This is decided before any request is
/// made: without a filename the link is not fetched.
pub fn ddl_filename(url: &str) -> (r: Result<String, ExtractError>)
    ensures
        match url_filename(url@) {
            Some(name) => r matches Ok(s) && s@ == name,
            None => r == Err::<String, ExtractError>(ExtractError::FilenameMissing),
        },
        !url@.contains('#') ==> r == Err::<String, ExtractError>(ExtractError::FilenameMissing),
        r matches Ok(s) ==> s@.len() > 0,
{
    proof {
        if !url@.contains('#') {
            lemma_no_fragment_no_filename(url@);
        }
    }
    let u = chars_of(url);
    let hash = vec!['#'];
    proof {
        assert(hash@ =~= seq!['#']);
    }
    match find_from_exec(&u, &hash, 0) {
        Some(k) => {
            proof {
                lemma_find_from(u@, hash@, 0);
            }
            if k < u.len() && u.len() - k > 1 {
                Ok(substring(url, k + 1, u.len()))
            } else {
                Err(ExtractError::FilenameMissing)
            }
        },
        None => Err(ExtractError::FilenameMissing),
    }
}

/// What the body of an intermediary page says: a mention of rate limiting comes first,
/// then one of a deleted file.
pub open spec fn page_kind(body: Seq<char>) -> PageKind {
    if contains(body, "rate limit"@) {
        PageKind::RateLimited
    } else if contains(body, "File Not Found Or Deleted"@) {
        PageKind::FileDeleted
    } else {
        PageKind::Download
    }
}

/// Classifies the body of an intermediary page by the markers it contains.
pub fn classify_page(body: &str) -> (r: PageKind)
    ensures
        r == page_kind(body@),
{
    let b = chars_of(body);
    if contains_exec(&b, &chars_of("rate limit")) {
        PageKind::RateLimited
    } else if contains_exec(&b, &chars_of("File Not Found Or Deleted")) {
        PageKind::FileDeleted
    } else {
        PageKind::Download
    }
}

/// The direct link held by the first of `scripts`: in its first text, what follows
/// `window.open("` up to the next `"`.
pub open spec fn direct_link_in(scripts: Seq<NodeView>) -> Option<Seq<char>> {
    if scripts.len() > 0 && scripts[0].1.len() > 0 {
        match split_once(scripts[0].1[0], "window.open(\""@) {
            Some((_, after)) => match split_once(after, "\""@) {
                Some((link, _)) => Some(link),
                None => None,
            },
            None => None,
        }
    } else {
        None
    }
}

/// Reads the direct link out of the script elements of an intermediary page.
pub fn ddl_from_nodes(scripts: &Vec<HtmlNode>) -> (r: Result<String, ExtractError>)
    ensures
        match direct_link_in(nodes_view(scripts@)) {
            Some(link) => r matches Ok(s) && s@ == link,
            None => r == Err::<String, ExtractError>(ExtractError::DDLMissing),
        },
{
    if scripts.len() == 0 {
        return Err(ExtractError::DDLMissing);
    }
    let script = &scripts[0];
    assert(nodes_view(scripts@)[0] == node_view(*script));
    if script.texts.len() == 0 {
        return Err(ExtractError::DDLMissing);
    }
    let text = &script.texts[0];
    assert(nodes_view(scripts@)[0].1[0] == text@);
    let after = match split_once_exec(text.as_str(), "window.open(\"") {
        Some((_, after)) => after,
        None => return Err(ExtractError::DDLMissing),
    };
    match split_once_exec(after.as_str(), "\"") {
        Some((link, _)) => Ok(link),
        None => Err(ExtractError::DDLMissing),
    }
}

/// The direct link of an intermediary page, through the HTML query facility.
pub open spec fn page_direct_link(document: Seq<char>) -> Result<Seq<char>, ExtractError> {
    match html_select(document, "div.mx-auto > script"@, "src"@) {
        Some(scripts) => match direct_link_in(scripts) {
            Some(link) => Ok(link),
            None => Err(ExtractError::DDLMissing),
        },
        None => Err(ExtractError::InvalidCSSSelector),
    }
}

/// Reads the direct link out of an intermediary page.
pub fn parse_ddl_page(document: &str) -> (r: Result<String, ExtractError>)
    ensures
        match page_direct_link(document@) {
            Ok(link) => r matches Ok(s) && s@ == link,
            Err(e) => r == Err::<String, ExtractError>(e),
        },
{
    match select_nodes(document, "div.mx-auto > script", "src") {
        Some(scripts) => ddl_from_nodes(&scripts),
        None => Err(ExtractError::InvalidCSSSelector),
    }
}

/// Resolves the answer to an intermediary-page request for the file `filename`.
///
/// Rate limiting and deletion are told by markers in the body; otherwise the page must
/// hold the direct link.
pub fn ddl_from_response(filename: String, body: &str) -> (r: Result<DDL, ExtractError>)
    ensures
        match page_kind(body@) {
            PageKind::RateLimited => r == Err::<DDL, ExtractError>(ExtractError::RateLimited),
            PageKind::FileDeleted => r == Err::<DDL, ExtractError>(
                ExtractError::FileNotFound(filename),
            ),
            PageKind::Download => match page_direct_link(body@) {
                Ok(link) => r matches Ok(d) && d.filename == filename && d.direct_link@ == link,
                Err(e) => r == Err::<DDL, ExtractError>(e),
            },
        },
{
    match classify_page(body) {
        PageKind::RateLimited => Err(ExtractError::RateLimited),
        PageKind::FileDeleted => Err(ExtractError::FileNotFound(filename)),
        PageKind::Download => {
            let direct_link = parse_ddl_page(body)?;
            Ok(DDL { filename, direct_link })
        },
    }
}

} // verus!
