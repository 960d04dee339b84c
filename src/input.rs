use vstd::prelude::*;

use crate::text::{chars_of, strings_view, substring};

verus! {

/// The characters that separate game URLs typed together.
pub open spec fn is_url_separator(c: char) -> bool {
    c == ' ' || c == '\n' || c == '\t'
}

/// The pieces of `s` between separators, empty ones included.
pub open spec fn pieces(s: Seq<char>) -> Seq<Seq<char>>
    decreases s.len(),
{
    if s.len() == 0 {
        seq![seq![]]
    } else {
        let p = pieces(s.drop_last());
        if is_url_separator(s.last()) {
            p.push(seq![])
        } else {
            p.update(p.len() - 1, p.last().push(s.last()))
        }
    }
}

/// The non-empty pieces, in order.
pub open spec fn non_empty(ps: Seq<Seq<char>>) -> Seq<Seq<char>>
    decreases ps.len(),
{
    if ps.len() == 0 {
        seq![]
    } else {
        let r = non_empty(ps.drop_last());
        if ps.last().len() > 0 {
            r.push(ps.last())
        } else {
            r
        }
    }
}

/// The game URLs typed in `s`: its non-empty pieces between spaces, newlines and tabs.
pub open spec fn url_tokens(s: Seq<char>) -> Seq<Seq<char>> {
    non_empty(pieces(s))
}

proof fn lemma_pieces_len(s: Seq<char>)
    ensures
        pieces(s).len() >= 1,
    decreases s.len(),
{
    if s.len() > 0 {
        lemma_pieces_len(s.drop_last());
    }
}

/// Splits text typed by a user into game URLs.
pub fn split_game_urls(text: &str) -> (r: Vec<String>)
    ensures
        strings_view(r@) == url_tokens(text@),
{
    let c = chars_of(text);
    let mut out: Vec<String> = Vec::new();
    let mut start: usize = 0;
    for i in 0..c.len()
        invariant
            c@ == text@,
            start <= i,
            pieces(c@.take(i as int)).len() >= 1,
            pieces(c@.take(i as int)).last() == c@.subrange(start as int, i as int),
            strings_view(out@) == non_empty(pieces(c@.take(i as int)).drop_last()),
    {
        let ghost p = pieces(c@.take(i as int));
        assert(c@.take(i + 1).drop_last() =~= c@.take(i as int));
        assert(c@.take(i + 1).last() == c@[i as int]);
        if c[i] == ' ' || c[i] == '\n' || c[i] == '\t' {
            let ghost before = strings_view(out@);
            if start < i {
                out.push(substring(text, start, i));
            }
            proof {
                let q = p.push(seq![]);
                assert(q.drop_last() =~= p);
                assert(p =~= p.drop_last().push(p.last()));
                assert(strings_view(out@) =~= non_empty(q.drop_last()));
                assert(c@.subrange(i + 1, i + 1) =~= q.last());
            }
            start = i + 1;
        } else {
            proof {
                let q = p.update(p.len() - 1, p.last().push(c@[i as int]));
                assert(q.drop_last() =~= p.drop_last());
                assert(c@.subrange(start as int, i + 1) =~= q.last());
            }
        }
    }
    let ghost p = pieces(c@);
    assert(c@.take(c.len() as int) =~= c@);
    assert(p =~= p.drop_last().push(p.last()));
    if start < c.len() {
        out.push(substring(text, start, c.len()));
    }
    assert(strings_view(out@) =~= non_empty(p));
    out
}

} // verus!
