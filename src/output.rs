use vstd::prelude::*;

use itertools::Itertools;
use vstd::multiset::Multiset;

use crate::extract::DDL;
use crate::text::concat;

verus! {

broadcast use vstd::seq_lib::group_to_multiset_ensures;

/// `a` sorts no later than `b`: strings are compared character by character, by code
/// point; on UTF-8 this is the byte order by which `str` compares.
pub open spec fn name_le(a: Seq<char>, b: Seq<char>) -> bool
    decreases a.len(),
{
    if a.len() == 0 {
        true
    } else if b.len() == 0 {
        false
    } else if a[0] == b[0] {
        name_le(a.drop_first(), b.drop_first())
    } else {
        (a[0] as int) < (b[0] as int)
    }
}

pub proof fn lemma_name_le_reflexive(a: Seq<char>)
    ensures
        name_le(a, a),
    decreases a.len(),
{
    if a.len() > 0 {
        lemma_name_le_reflexive(a.drop_first());
    }
}

pub proof fn lemma_name_le_total(a: Seq<char>, b: Seq<char>)
    ensures
        name_le(a, b) || name_le(b, a),
    decreases a.len(),
{
    if a.len() > 0 && b.len() > 0 && a[0] == b[0] {
        lemma_name_le_total(a.drop_first(), b.drop_first());
    } else if a.len() > 0 && b.len() > 0 {
        assert((a[0] as int) != (b[0] as int));
    }
}

pub proof fn lemma_name_le_transitive(a: Seq<char>, b: Seq<char>, c: Seq<char>)
    requires
        name_le(a, b),
        name_le(b, c),
    ensures
        name_le(a, c),
    decreases a.len(),
{
    if a.len() > 0 && b.len() > 0 && c.len() > 0 && a[0] == b[0] && b[0] == c[0] {
        lemma_name_le_transitive(a.drop_first(), b.drop_first(), c.drop_first());
    }
}

pub proof fn lemma_name_le_antisymmetric(a: Seq<char>, b: Seq<char>)
    requires
        name_le(a, b),
        name_le(b, a),
    ensures
        a == b,
    decreases a.len(),
{
    if a.len() > 0 && b.len() > 0 {
        lemma_name_le_antisymmetric(a.drop_first(), b.drop_first());
        assert(a =~= seq![a[0]] + a.drop_first());
        assert(b =~= seq![b[0]] + b.drop_first());
    } else {
        assert(a =~= b);
    }
}

/// `d` placed into the sorted `s`: after every link whose filename sorts no later than its
/// own, before the rest.
pub open spec fn insert_by_name(d: DDL, s: Seq<DDL>) -> Seq<DDL>
    decreases s.len(),
{
    if s.len() == 0 {
        seq![d]
    } else if name_le(s.last().filename@, d.filename@) {
        s.push(d)
    } else {
        insert_by_name(d, s.drop_last()).push(s.last())
    }
}

/// The links of `s` in ascending order of filename; links with equal filenames keep their
/// order in `s`. This is the result of any stable sort by filename.
pub open spec fn sort_by_name(s: Seq<DDL>) -> Seq<DDL>
    decreases s.len(),
{
    if s.len() == 0 {
        seq![]
    } else {
        insert_by_name(s.last(), sort_by_name(s.drop_last()))
    }
}

/// Filenames never decrease along `s`.
pub open spec fn sorted_by_name(s: Seq<DDL>) -> bool {
    forall|i: int, j: int| 0 <= i < j < s.len() ==> name_le(s[i].filename@, s[j].filename@)
}

proof fn lemma_insert_by_name(d: DDL, s: Seq<DDL>, bound: Seq<char>)
    requires
        sorted_by_name(s),
    ensures
        sorted_by_name(insert_by_name(d, s)),
        insert_by_name(d, s).to_multiset() == s.to_multiset().insert(d),
        insert_by_name(d, s).len() == s.len() + 1,
        name_le(d.filename@, bound) && (forall|i: int|
            0 <= i < s.len() ==> name_le(#[trigger] s[i].filename@, bound)) ==> forall|i: int|
            0 <= i < s.len() + 1 ==> name_le(#[trigger] insert_by_name(d, s)[i].filename@, bound),
    decreases s.len(),
{
    if s.len() == 0 {
        assert(seq![d] =~= Seq::<DDL>::empty().push(d));
    } else if name_le(s.last().filename@, d.filename@) {
        assert forall|i: int, j: int| 0 <= i < j < s.len() + 1 implies name_le(
            s.push(d)[i].filename@,
            s.push(d)[j].filename@,
        ) by {
            if j == s.len() {
                if i < s.len() - 1 {
                    lemma_name_le_transitive(s[i].filename@, s.last().filename@, d.filename@);
                }
            }
        }
    } else {
        let t = s.drop_last();
        let l = s.last();
        lemma_name_le_total(l.filename@, d.filename@);
        assert(sorted_by_name(t));
        lemma_insert_by_name(d, t, l.filename@);
        let r = insert_by_name(d, t);
        assert forall|i: int| 0 <= i < t.len() implies name_le(
            #[trigger] t[i].filename@,
            l.filename@,
        ) by {
            assert(s[i] == t[i]);
        }
        assert forall|i: int, j: int| 0 <= i < j < r.len() + 1 implies name_le(
            r.push(l)[i].filename@,
            r.push(l)[j].filename@,
        ) by {
            if j == r.len() {
                assert(name_le(r[i].filename@, l.filename@));
            }
        }
        assert(s =~= t.push(l));
        assert forall|i: int| 0 <= i < s.len() + 1 && name_le(d.filename@, bound) && (forall|
            k: int,
        | 0 <= k < s.len() ==> name_le(#[trigger] s[k].filename@, bound)) implies name_le(
            #[trigger] r.push(l)[i].filename@,
            bound,
        ) by {
            if i == r.len() {
                assert(name_le(s[s.len() - 1].filename@, bound));
            } else {
                lemma_insert_by_name(d, t, bound);
                assert forall|k: int| 0 <= k < t.len() implies name_le(
                    #[trigger] t[k].filename@,
                    bound,
                ) by {
                    assert(s[k] == t[k]);
                }
            }
        }
    }
}

/// The blocks of the text written for `s` are those of the links of `s`, each once, in
/// ascending order of filename.
pub proof fn lemma_sort_by_name(s: Seq<DDL>)
    ensures
        sorted_by_name(sort_by_name(s)),
        sort_by_name(s).to_multiset() == s.to_multiset(),
        sort_by_name(s).len() == s.len(),
    decreases s.len(),
{
    if s.len() == 0 {
        assert(s.to_multiset() =~= Multiset::<DDL>::empty());
        assert(sort_by_name(s).to_multiset() =~= Multiset::<DDL>::empty());
    } else {
        lemma_sort_by_name(s.drop_last());
        lemma_insert_by_name(s.last(), sort_by_name(s.drop_last()), s.last().filename@);
        assert(s =~= s.drop_last().push(s.last()));
    }
}

/// No two links of `s` share a filename.
pub open spec fn distinct_names(s: Seq<DDL>) -> bool {
    forall|i: int, j: int|
        0 <= i < s.len() && 0 <= j < s.len() && i != j ==> #[trigger] s[i].filename@
            != #[trigger] s[j].filename@
}

proof fn lemma_distinct_names_permuted(s: Seq<DDL>, t: Seq<DDL>)
    requires
        s.to_multiset() == t.to_multiset(),
        distinct_names(s),
    ensures
        distinct_names(t),
{
    assert(s.no_duplicates()) by {
        assert forall|i: int, j: int|
            0 <= i < s.len() && 0 <= j < s.len() && i != j implies s[i] != s[j] by {
            assert(s[i].filename@ != s[j].filename@);
        }
    }
    s.lemma_multiset_has_no_duplicates();
    t.lemma_multiset_has_no_duplicates_conv();
    assert forall|i: int, j: int|
        0 <= i < t.len() && 0 <= j < t.len() && i != j implies #[trigger] t[i].filename@
        != #[trigger] t[j].filename@ by {
        assert(t.contains(t[i]));
        assert(t.contains(t[j]));
        assert(t.to_multiset().count(t[i]) > 0);
        assert(t.to_multiset().count(t[j]) > 0);
        assert(s.contains(t[i]));
        assert(s.contains(t[j]));
        let p = choose|p: int| 0 <= p < s.len() && s[p] == t[i];
        let q = choose|q: int| 0 <= q < s.len() && s[q] == t[j];
        assert(p != q);
    }
}

proof fn lemma_sorted_unique(x: Seq<DDL>, y: Seq<DDL>)
    requires
        sorted_by_name(x),
        sorted_by_name(y),
        x.to_multiset() == y.to_multiset(),
        distinct_names(x),
    ensures
        x == y,
    decreases x.len(),
{
    assert(x.to_multiset().len() == x.len());
    assert(y.to_multiset().len() == y.len());
    if x.len() == 0 {
        assert(x =~= y);
    } else {
        let lx = x.last();
        let ly = y.last();
        assert(x.contains(lx));
        assert(y.contains(ly));
        assert(x.to_multiset().count(lx) > 0);
        assert(y.to_multiset().count(ly) > 0);
        assert(y.contains(lx));
        assert(x.contains(ly));
        let i = choose|i: int| 0 <= i < x.len() && x[i] == ly;
        let j = choose|j: int| 0 <= j < y.len() && y[j] == lx;
        lemma_name_le_reflexive(lx.filename@);
        if i < x.len() - 1 {
            assert(name_le(x[i].filename@, lx.filename@));
        }
        if j < y.len() - 1 {
            assert(name_le(y[j].filename@, ly.filename@));
        }
        lemma_name_le_antisymmetric(lx.filename@, ly.filename@);
        assert(i == x.len() - 1);
        let xs = x.drop_last();
        let ys = y.drop_last();
        assert(x =~= xs.push(lx));
        assert(y =~= ys.push(lx));
        assert(xs.to_multiset() =~= x.to_multiset().remove(lx));
        assert(ys.to_multiset() =~= y.to_multiset().remove(lx));
        assert(distinct_names(xs)) by {
            assert forall|a: int, b: int|
                0 <= a < xs.len() && 0 <= b < xs.len() && a != b implies #[trigger] xs[a].filename@
                != #[trigger] xs[b].filename@ by {
                assert(xs[a] == x[a] && xs[b] == x[b]);
            }
        }
        assert(sorted_by_name(xs)) by {
            assert forall|a: int, b: int| 0 <= a < b < xs.len() implies name_le(
                xs[a].filename@,
                xs[b].filename@,
            ) by {
                assert(xs[a] == x[a] && xs[b] == x[b]);
            }
        }
        assert(sorted_by_name(ys)) by {
            assert forall|a: int, b: int| 0 <= a < b < ys.len() implies name_le(
                ys[a].filename@,
                ys[b].filename@,
            ) by {
                assert(ys[a] == y[a] && ys[b] == y[b]);
            }
        }
        lemma_sorted_unique(xs, ys);
    }
}

/// The text written for a set of links does not depend on the order in which the links
/// come, as long as no two share a filename: writing the same set twice gives the same
/// text.
pub proof fn lemma_aria2_input_order_free(a: Seq<DDL>, b: Seq<DDL>)
    requires
        a.to_multiset() == b.to_multiset(),
        distinct_names(a),
    ensures
        aria2_text(sort_by_name(a)) == aria2_text(sort_by_name(b)),
{
    lemma_sort_by_name(a);
    lemma_sort_by_name(b);
    lemma_distinct_names_permuted(a, sort_by_name(a));
    lemma_sorted_unique(sort_by_name(a), sort_by_name(b));
}

/// Relies on `Itertools::sorted_by`, a stable sort (it calls `slice::sort_by`), here
/// comparing filenames with `str`'s `Ord`.
#[verifier::external_body]
fn sort_by_filename(ddls: Vec<DDL>) -> (r: Vec<DDL>)
    ensures
        r@ == sort_by_name(ddls@),
{
    ddls.into_iter().sorted_by(|a, b| a.filename.cmp(&b.filename)).collect()
}

/// The block that tells a download manager to fetch `d`.
pub open spec fn aria2_block(d: DDL) -> Seq<char> {
    d.direct_link@ + "\n    out="@ + d.filename@ + "\n    continue=true\n"@
}

/// The blocks of `s`, in order.
pub open spec fn aria2_text(s: Seq<DDL>) -> Seq<char>
    decreases s.len(),
{
    if s.len() == 0 {
        seq![]
    } else {
        aria2_text(s.drop_last()) + aria2_block(s.last())
    }
}

/// The download-manager input for `ddls`: one block per link, in ascending order of
/// filename.
pub fn aria2_input(ddls: Vec<DDL>) -> (r: String)
    ensures
        r@ == aria2_text(sort_by_name(ddls@)),
{
    let sorted = sort_by_filename(ddls);
    let mut out = String::new();
    for i in 0..sorted.len()
        invariant
            out@ == aria2_text(sorted@.take(i as int)),
    {
        let d = &sorted[i];
        let line = concat(d.direct_link.as_str(), "\n    out=");
        let line = concat(line.as_str(), d.filename.as_str());
        let line = concat(line.as_str(), "\n    continue=true\n");
        assert(sorted@.take(i + 1).drop_last() =~= sorted@.take(i as int));
        out.append(line.as_str());
        assert(out@ =~= aria2_text(sorted@.take(i + 1)));
    }
    assert(sorted@.take(sorted.len() as int) =~= sorted@);
    out
}

} // verus!
