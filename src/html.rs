use vstd::prelude::*;

use crate::text::strings_view;

verus! {

/// One element matched by a CSS selector, read into plain values.
pub struct HtmlNode {
    /// The element's own HTML, tags included.
    pub fragment: String,
    /// The text nodes below the element, in document order.
    pub texts: Vec<String>,
    /// The value of the attribute that was asked for, if the element has it.
    pub attribute: Option<String>,
}

/// What a matched element is to the contracts: its fragment, its text nodes and the
/// attribute that was asked for.
pub type NodeView = (Seq<char>, Seq<Seq<char>>, Option<Seq<char>>);

pub open spec fn node_view(n: HtmlNode) -> NodeView {
    (n.fragment@, strings_view(n.texts@), match n.attribute {
        Some(a) => Some(a@),
        None => None,
    })
}

pub open spec fn nodes_view(nodes: Seq<HtmlNode>) -> Seq<NodeView> {
    nodes.map_values(|n: HtmlNode| node_view(n))
}

/// The elements of `document` that `selector` matches, in document order, each with the
/// value of its attribute named `attribute`; `None` when the selector does not parse.
pub uninterp spec fn html_select(
    document: Seq<char>,
    selector: Seq<char>,
    attribute: Seq<char>,
) -> Option<Seq<NodeView>>;

/// Relies on scraper: `Selector::parse`, `Html::parse_document`, `Html::select`, and on the
/// matched `ElementRef`'s `html`, `text` and `attr`. The result depends on the three
/// strings alone.
#[verifier::external_body]
pub(crate) fn select_nodes(document: &str, selector: &str, attribute: &str) -> (r: Option<
    Vec<HtmlNode>,
>)
    ensures
        html_select(document@, selector@, attribute@) == match r {
            Some(v) => Some(nodes_view(v@)),
            None => None,
        },
{
    let selector = scraper::Selector::parse(selector).ok()?;
    let html = scraper::Html::parse_document(document);
    let nodes = html.select(&selector).map(|e| HtmlNode {
        fragment: e.html(),
        texts: e.text().map(str::to_string).collect(),
        attribute: e.attr(attribute).map(str::to_string),
    });
    Some(nodes.collect())
}

} // verus!
