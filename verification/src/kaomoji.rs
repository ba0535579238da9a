//! Kaomoji categories and the emoji groups they become.
use vstd::prelude::*;
use crate::groups::{Groups, GroupModel, has_group, items_for, lemma_with_items, with_items};
use crate::text::{chars_of, concat_chars, string_of, string_views};

verus! {

/// A category of kaomojis: its name and its emoticons.
pub struct KaomojiCategory {
    pub name: String,
    pub emoticons: Vec<String>,
}

/// A kaomoji collection: its name and its categories.
pub struct KaomojiRoot {
    pub name: String,
    pub categories: Vec<KaomojiCategory>,
}

impl View for KaomojiCategory {
    type V = (Seq<char>, Seq<Seq<char>>);

    open spec fn view(&self) -> (Seq<char>, Seq<Seq<char>>) {
        (self.name@, string_views(self.emoticons@))
    }
}

impl View for KaomojiRoot {
    type V = (Seq<char>, Seq<(Seq<char>, Seq<Seq<char>>)>);

    open spec fn view(&self) -> (Seq<char>, Seq<(Seq<char>, Seq<Seq<char>>)>) {
        (self.name@, self.categories@.map_values(|c: KaomojiCategory| c@))
    }
}

/// What the name of a kaomoji category's group starts with.
pub open spec fn kaomoji_prefix() -> Seq<char> {
    "Kaomojis"@
}

/// The (group, emoticon) pairs of one category, in order.
pub open spec fn category_pairs(c: (Seq<char>, Seq<Seq<char>>)) -> Seq<(Seq<char>, Seq<char>)> {
    c.1.map_values(|e: Seq<char>| (kaomoji_prefix() + c.0, e))
}

/// The (group, emoticon) pairs of one collection, category after category.
pub open spec fn root_pairs(r: (Seq<char>, Seq<(Seq<char>, Seq<Seq<char>>)>)) -> Seq<
    (Seq<char>, Seq<char>),
> {
    r.1.map_values(|c: (Seq<char>, Seq<Seq<char>>)| category_pairs(c)).flatten_alt()
}

/// The (group, emoticon) pairs of all collections, collection after collection.
pub open spec fn kaomoji_pairs(roots: Seq<(Seq<char>, Seq<(Seq<char>, Seq<Seq<char>>)>)>) -> Seq<
    (Seq<char>, Seq<char>),
> {
    roots.map_values(|r: (Seq<char>, Seq<(Seq<char>, Seq<Seq<char>>)>)| root_pairs(r)).flatten_alt()
}

/// The groups that kaomoji collections make: each category's emoticons go, in order, to
/// the group named "Kaomojis" followed by the category's name.
pub open spec fn kaomoji_groups(roots: Seq<(Seq<char>, Seq<(Seq<char>, Seq<Seq<char>>)>)>) -> GroupModel {
    with_items(Seq::empty(), kaomoji_pairs(roots))
}

/// The views of a sequence of collections.
pub open spec fn root_views(roots: Seq<KaomojiRoot>) -> Seq<(Seq<char>, Seq<(Seq<char>, Seq<Seq<char>>)>)> {
    roots.map_values(|r: KaomojiRoot| r@)
}

/// Adding pairs in two runs is adding them all in one.
pub proof fn lemma_with_items_append(
    m: GroupModel,
    a: Seq<(Seq<char>, Seq<char>)>,
    b: Seq<(Seq<char>, Seq<char>)>,
)
    ensures
        with_items(m, a + b) == with_items(with_items(m, a), b),
    decreases b.len(),
{
    if b.len() == 0 {
        assert(a + b =~= a);
    } else {
        lemma_with_items_append(m, a, b.drop_last());
        assert((a + b).drop_last() =~= a + b.drop_last());
    }
}

/// Adds each emoticon of `c` to the group "Kaomojis" + `c.name`.
fn add_category(groups: &mut Groups, c: &KaomojiCategory)
    requires
        old(groups).wf(),
    ensures
        final(groups).wf(),
        final(groups)@ == with_items(old(groups)@, category_pairs(c@)),
{
    let prefix = chars_of("Kaomojis");
    let key = concat_chars(&prefix, &chars_of(c.name.as_str()));
    let ghost m0 = groups@;
    let ghost ps = category_pairs(c@);
    let mut k: usize = 0;
    assert(ps.take(0) =~= Seq::<(Seq<char>, Seq<char>)>::empty());
    while k < c.emoticons.len()
        invariant
            k <= c.emoticons.len(),
            ps == category_pairs(c@),
            key@ == kaomoji_prefix() + c.name@,
            groups.wf(),
            groups@ == with_items(m0, ps.take(k as int)),
        decreases c.emoticons.len() - k,
    {
        groups.push_item(string_of(&key), c.emoticons[k].clone());
        assert(ps.take(k + 1).drop_last() =~= ps.take(k as int));
        k = k + 1;
    }
    assert(ps.take(c.emoticons.len() as int) =~= ps);
}

/// Adds every emoticon of every category of `r`, in order.
fn add_root(groups: &mut Groups, r: &KaomojiRoot)
    requires
        old(groups).wf(),
    ensures
        final(groups).wf(),
        final(groups)@ == with_items(old(groups)@, root_pairs(r@)),
{
    let ghost m0 = groups@;
    let ghost cs = r@.1.map_values(|c: (Seq<char>, Seq<Seq<char>>)| category_pairs(c));
    let mut k: usize = 0;
    assert(cs.take(0).flatten_alt() =~= Seq::<(Seq<char>, Seq<char>)>::empty());
    while k < r.categories.len()
        invariant
            k <= r.categories.len(),
            cs == r@.1.map_values(|c: (Seq<char>, Seq<Seq<char>>)| category_pairs(c)),
            groups.wf(),
            groups@ == with_items(m0, cs.take(k as int).flatten_alt()),
        decreases r.categories.len() - k,
    {
        let ghost before = groups@;
        add_category(groups, &r.categories[k]);
        proof {
            assert(cs.take(k + 1).drop_last() =~= cs.take(k as int));
            assert(cs.take(k + 1).last() == category_pairs(r.categories@[k as int]@));
            lemma_with_items_append(m0, cs.take(k as int).flatten_alt(), cs.take(k + 1).last());
        }
        k = k + 1;
    }
    assert(cs.take(r.categories.len() as int) =~= cs);
}

/// Groups the emoticons of kaomoji collections by category: each goes, in order, to the
/// group named "Kaomojis" followed by its category's name.
pub fn group_kaomojis(roots: &Vec<KaomojiRoot>) -> (r: Groups)
    ensures
        r.wf(),
        r@ == kaomoji_groups(root_views(roots@)),
{
    let mut groups = Groups::new();
    let ghost rs = root_views(roots@).map_values(
        |r: (Seq<char>, Seq<(Seq<char>, Seq<Seq<char>>)>)| root_pairs(r),
    );
    let mut k: usize = 0;
    assert(rs.take(0).flatten_alt() =~= Seq::<(Seq<char>, Seq<char>)>::empty());
    while k < roots.len()
        invariant
            k <= roots.len(),
            rs == root_views(roots@).map_values(
                |r: (Seq<char>, Seq<(Seq<char>, Seq<Seq<char>>)>)| root_pairs(r),
            ),
            groups.wf(),
            groups@ == with_items(Seq::empty(), rs.take(k as int).flatten_alt()),
        decreases roots.len() - k,
    {
        add_root(&mut groups, &roots[k]);
        proof {
            assert(rs.take(k + 1).drop_last() =~= rs.take(k as int));
            assert(rs.take(k + 1).last() == root_pairs(roots@[k as int]@));
            lemma_with_items_append(Seq::empty(), rs.take(k as int).flatten_alt(), rs.take(k + 1).last());
        }
        k = k + 1;
    }
    assert(rs.take(roots.len() as int) =~= rs);
    groups
}

/// A group gets items from `pairs` only where some pair names it.
proof fn lemma_items_for_named(pairs: Seq<(Seq<char>, Seq<char>)>, k: Seq<char>)
    requires
        items_for(pairs, k).len() > 0,
    ensures
        exists|i: int| 0 <= i < pairs.len() && pairs[i].0 == k,
    decreases pairs.len(),
{
    if pairs.last().0 != k {
        lemma_items_for_named(pairs.drop_last(), k);
        let i = choose|i: int| 0 <= i < pairs.drop_last().len() && pairs.drop_last()[i].0 == k;
        assert(pairs[i] == pairs.drop_last()[i]);
    } else {
        assert(pairs[pairs.len() - 1].0 == k);
    }
}

/// Every pair of a concatenation comes from one of its parts.
proof fn lemma_flatten_alt_member(
    parts: Seq<Seq<(Seq<char>, Seq<char>)>>,
    i: int,
)
    requires
        0 <= i < parts.flatten_alt().len(),
    ensures
        exists|p: int, q: int|
            0 <= p < parts.len() && 0 <= q < parts[p].len() && parts[p][q] == parts.flatten_alt()[i],
    decreases parts.len(),
{
    let init = parts.drop_last().flatten_alt();
    if i < init.len() {
        lemma_flatten_alt_member(parts.drop_last(), i);
        let (p, q) = choose|p: int, q: int|
            0 <= p < parts.drop_last().len() && 0 <= q < parts.drop_last()[p].len()
                && parts.drop_last()[p][q] == init[i];
        assert(parts[p] == parts.drop_last()[p]);
    } else {
        assert(parts[parts.len() - 1][i - init.len()] == parts.flatten_alt()[i]);
    }
}

/// Every kaomoji group is named "Kaomojis" followed by the name of a category that has at
/// least one emoticon.
pub proof fn lemma_kaomoji_group_names(
    roots: Seq<(Seq<char>, Seq<(Seq<char>, Seq<Seq<char>>)>)>,
    k: Seq<char>,
)
    requires
        has_group(kaomoji_groups(roots), k),
    ensures
        exists|r: int, c: int|
            0 <= r < roots.len() && 0 <= c < roots[r].1.len() && roots[r].1[c].1.len() > 0
                && k == kaomoji_prefix() + roots[r].1[c].0,
{
    let pairs = kaomoji_pairs(roots);
    lemma_with_items(Seq::empty(), pairs, k);
    lemma_items_for_named(pairs, k);
    let i = choose|i: int| 0 <= i < pairs.len() && pairs[i].0 == k;
    let rps = roots.map_values(|r: (Seq<char>, Seq<(Seq<char>, Seq<Seq<char>>)>)| root_pairs(r));
    lemma_flatten_alt_member(rps, i);
    let (r, q) = choose|p: int, q: int|
        0 <= p < rps.len() && 0 <= q < rps[p].len() && rps[p][q] == pairs[i];
    let cps = roots[r].1.map_values(|c: (Seq<char>, Seq<Seq<char>>)| category_pairs(c));
    assert(rps[r] == cps.flatten_alt());
    lemma_flatten_alt_member(cps, q);
    let (c, e) = choose|p: int, e: int|
        0 <= p < cps.len() && 0 <= e < cps[p].len() && cps[p][e] == cps.flatten_alt()[q];
    assert(cps[c] == category_pairs(roots[r].1[c]));
    assert(cps[c][e].0 == kaomoji_prefix() + roots[r].1[c].0);
}

} // verus!
