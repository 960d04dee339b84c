use vstd::prelude::*;

use ahash::AHashMap;

use crate::extract::DDL;
use crate::text::{chars_of, contains, contains_exec, find, find_from_exec, lemma_find_from, substring};

verus! {

#[verifier::external_type_specification]
#[verifier::external_body]
#[verifier::reject_recursive_types(K)]
#[verifier::reject_recursive_types(V)]
#[verifier::reject_recursive_types(S)]
pub struct ExAHashMap<K, V, S>(ahash::AHashMap<K, V, S>);

#[verifier::external_type_specification]
#[verifier::external_body]
pub struct ExRandomState(ahash::RandomState);

/// What a map of groups holds: for each group name, the filename and direct link of each
/// of its links, in the order they were added.
pub uninterp spec fn group_contents(m: AHashMap<String, Vec<DDL>>) -> Map<
    Seq<char>,
    Seq<(Seq<char>, Seq<char>)>,
>;

/// A link as a filename and a direct link.
pub open spec fn link_pair(d: DDL) -> (Seq<char>, Seq<char>) {
    (d.filename@, d.direct_link@)
}

/// No groups.
pub open spec fn empty_group_map() -> Map<Seq<char>, Seq<(Seq<char>, Seq<char>)>> {
    Map::empty()
}

/// Relies on `AHashMap::new`: the map is empty.
#[verifier::external_body]
fn empty_groups() -> (r: AHashMap<String, Vec<DDL>>)
    ensures
        group_contents(r) == empty_group_map(),
{
    AHashMap::new()
}

/// Relies on the map's `entry(key).or_default()`, then `Vec::push`: `d` is added at the end
/// of the group `key`, which is created empty if it was not there.
#[verifier::external_body]
fn add_to_group(m: &mut AHashMap<String, Vec<DDL>>, key: String, d: DDL)
    ensures
        group_contents(*final(m)) == group_contents(*old(m)).insert(
            key@,
            group_or_empty(group_contents(*old(m)), key@).push(link_pair(d)),
        ),
{
    m.entry(key).or_default().push(d);
}

/// The links of the group `key`; none when there is no such group.
pub open spec fn group_or_empty(
    g: Map<Seq<char>, Seq<(Seq<char>, Seq<char>)>>,
    key: Seq<char>,
) -> Seq<(Seq<char>, Seq<char>)> {
    if g.contains_key(key) {
        g[key]
    } else {
        seq![]
    }
}

/// The group of a file: its name up to the first `.part`, or the whole name.
pub open spec fn group_name(filename: Seq<char>) -> Seq<char> {
    match find(filename, ".part"@) {
        Some(k) => filename.subrange(0, k),
        None => filename,
    }
}

/// The links of `s` grouped by `group_name`, each group in the order of `s`.
pub open spec fn grouped(s: Seq<DDL>) -> Map<Seq<char>, Seq<(Seq<char>, Seq<char>)>>
    decreases s.len(),
{
    if s.len() == 0 {
        empty_group_map()
    } else {
        let g = grouped(s.drop_last());
        let key = group_name(s.last().filename@);
        g.insert(key, group_or_empty(g, key).push(link_pair(s.last())))
    }
}

/// The group of a file.
pub fn group_name_of(filename: &str) -> (r: String)
    ensures
        r@ == group_name(filename@),
{
    let f = chars_of(filename);
    let part = chars_of(".part");
    match find_from_exec(&f, &part, 0) {
        Some(k) => {
            proof {
                lemma_find_from(f@, part@, 0);
            }
            substring(filename, 0, k)
        },
        None => substring(filename, 0, f.len()),
    }
}

/// Whether the group starts out chosen for download: the groups that name the site or
/// hold fixes.
pub open spec fn preselected(name: Seq<char>) -> bool {
    contains(name, "fitgirl-repacks.site"@) || contains(name, "FIXED"@)
}

/// Whether the group named `name` starts out chosen for download.
pub fn is_preselected_group(name: &str) -> (r: bool)
    ensures
        r == preselected(name@),
{
    let n = chars_of(name);
    contains_exec(&n, &chars_of("fitgirl-repacks.site")) || contains_exec(&n, &chars_of("FIXED"))
}

/// Groups links by the name their files share before `.part`, so that a multi-part archive
/// can be chosen as one.
pub fn collect_groups(ddls: Vec<DDL>) -> (r: AHashMap<String, Vec<DDL>>)
    ensures
        group_contents(r) == grouped(ddls@),
{
    let ghost all = ddls@;
    let mut groups = empty_groups();
    for d in it: ddls.into_iter()
        invariant
            it.seq() == all,
            group_contents(groups) == grouped(all.take(it.index() as int)),
    {
        let ghost i = it.index() as int;
        assert(all.take(i + 1).drop_last() =~= all.take(i));
        assert(all.take(i + 1).last() == d);
        let key = group_name_of(d.filename.as_str());
        add_to_group(&mut groups, key, d);
    }
    assert(all.take(all.len() as int) =~= all);
    groups
}

} // verus!
