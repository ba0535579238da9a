//! Named groups of items, kept in the order in which their names first appeared.
use vstd::prelude::*;
use crate::text::string_views;

verus! {

/// The model of a group collection: each name with its items, in first-appearance order.
pub type GroupModel = Seq<(Seq<char>, Seq<Seq<char>>)>;

/// One named group of items.
pub struct Group {
    pub name: String,
    pub items: Vec<String>,
}

impl View for Group {
    type V = (Seq<char>, Seq<Seq<char>>);

    open spec fn view(&self) -> (Seq<char>, Seq<Seq<char>>) {
        (self.name@, string_views(self.items@))
    }
}

/// Groups of items keyed by name; no name occurs twice.
pub struct Groups {
    entries: Vec<Group>,
}

impl View for Groups {
    type V = GroupModel;

    closed spec fn view(&self) -> GroupModel {
        self.entries@.map_values(|g: Group| g@)
    }
}

/// No two groups of `m` have the same name.
pub open spec fn names_distinct(m: GroupModel) -> bool {
    forall|i: int, j: int| 0 <= i < m.len() && 0 <= j < m.len() && i != j ==> m[i].0 != m[j].0
}

/// `m` has a group named `k`.
pub open spec fn has_group(m: GroupModel, k: Seq<char>) -> bool {
    exists|i: int| 0 <= i < m.len() && m[i].0 == k
}

/// The position of the group named `k` (meaningful where `has_group(m, k)`).
pub open spec fn group_index(m: GroupModel, k: Seq<char>) -> int {
    choose|i: int| 0 <= i < m.len() && m[i].0 == k
}

/// The items of the group named `k`; none where there is no such group.
pub open spec fn items_of(m: GroupModel, k: Seq<char>) -> Seq<Seq<char>> {
    if has_group(m, k) {
        m[group_index(m, k)].1
    } else {
        seq![]
    }
}

/// `m` with `v` appended to the group named `k`, which is created at the end where absent
/// (`map.entry(k).or_default().push(v)`).
pub open spec fn with_item(m: GroupModel, k: Seq<char>, v: Seq<char>) -> GroupModel {
    if has_group(m, k) {
        let i = group_index(m, k);
        m.update(i, (k, m[i].1.push(v)))
    } else {
        m.push((k, seq![v]))
    }
}

/// `m` with each `(name, item)` pair of `pairs` added in turn by `with_item`.
pub open spec fn with_items(m: GroupModel, pairs: Seq<(Seq<char>, Seq<char>)>) -> GroupModel
    decreases pairs.len(),
{
    if pairs.len() == 0 {
        m
    } else {
        with_item(with_items(m, pairs.drop_last()), pairs.last().0, pairs.last().1)
    }
}

/// `m` where the group named `k` holds exactly `items`, replacing the group of that name
/// where present and appending one where absent (`HashMap::insert`).
pub open spec fn with_group(m: GroupModel, k: Seq<char>, items: Seq<Seq<char>>) -> GroupModel {
    if has_group(m, k) {
        m.update(group_index(m, k), (k, items))
    } else {
        m.push((k, items))
    }
}

/// `m` with every group of `other` put in by `with_group`, in order (`HashMap::extend`).
pub open spec fn extended(m: GroupModel, other: GroupModel) -> GroupModel
    decreases other.len(),
{
    if other.len() == 0 {
        m
    } else {
        let e = other.last();
        with_group(extended(m, other.drop_last()), e.0, e.1)
    }
}

/// `m` with, in each group, every item after its first occurrence removed.
pub open spec fn deduplicated(m: GroupModel) -> GroupModel {
    m.map_values(
        |e: (Seq<char>, Seq<Seq<char>>)| (e.0, e.1.remove_duplicates(Seq::<Seq<char>>::empty())),
    )
}

proof fn lemma_index_unique(m: GroupModel, k: Seq<char>, i: int)
    requires
        names_distinct(m),
        0 <= i < m.len(),
        m[i].0 == k,
    ensures
        has_group(m, k),
        group_index(m, k) == i,
{
}

impl Groups {
    /// The collection invariant: group names are distinct.
    pub open spec fn wf(&self) -> bool {
        names_distinct(self@)
    }

    /// An empty collection.
    pub fn new() -> (r: Groups)
        ensures
            r.wf(),
            r@ == Seq::<(Seq<char>, Seq<Seq<char>>)>::empty(),
    {
        let r = Groups { entries: Vec::new() };
        assert(r@ =~= Seq::<(Seq<char>, Seq<Seq<char>>)>::empty());
        r
    }

    /// Number of groups.
    pub fn len(&self) -> (r: usize)
        ensures
            r == self@.len(),
    {
        self.entries.len()
    }

    /// The group at position `i`.
    pub fn group_at(&self, i: usize) -> (r: &Group)
        requires
            i < self@.len(),
        ensures
            r@ == self@[i as int],
    {
        &self.entries[i]
    }

    /// Position of the group named `name`, if there is one.
    pub fn find(&self, name: &String) -> (r: Option<usize>)
        requires
            self.wf(),
        ensures
            r is None <==> !has_group(self@, name@),
            r matches Some(i) ==> i < self@.len() && i == group_index(self@, name@),
    {
        let mut i: usize = 0;
        while i < self.entries.len()
            invariant
                i <= self.entries.len(),
                names_distinct(self@),
                forall|j: int| 0 <= j < i ==> self@[j].0 != name@,
            decreases self.entries.len() - i,
        {
            if self.entries[i].name == *name {
                proof { lemma_index_unique(self@, name@, i as int); }
                return Some(i);
            }
            i = i + 1;
        }
        None
    }

    /// The items of the group named `name`, if there is one.
    pub fn get(&self, name: &String) -> (r: Option<&Vec<String>>)
        requires
            self.wf(),
        ensures
            r is None <==> !has_group(self@, name@),
            r matches Some(v) ==> string_views(v@) == items_of(self@, name@),
    {
        match self.find(name) {
            Some(i) => Some(&self.entries[i].items),
            None => None,
        }
    }

    /// Appends `item` to the group named `name`, creating that group at the end when absent.
    pub fn push_item(&mut self, name: String, item: String)
        requires
            old(self).wf(),
        ensures
            final(self).wf(),
            final(self)@ == with_item(old(self)@, name@, item@),
    {
        let ghost m = self@;
        match self.find(&name) {
            Some(i) => {
                let mut g = self.entries.remove(i);
                let ghost gv = g@;
                g.items.push(item);
                assert(string_views(g.items@) =~= gv.1.push(item@));
                self.entries.insert(i, g);
                assert(self@ =~= m.update(i as int, (name@, m[i as int].1.push(item@))));
            },
            None => {
                let ghost gv = (name@, seq![item@]);
                let mut items: Vec<String> = Vec::new();
                items.push(item);
                let g = Group { name, items };
                assert(g@ =~= gv);
                self.entries.push(g);
                assert(self@ =~= m.push(gv));
            },
        }
    }

    /// Makes the group named `name` hold exactly `items`, replacing a group of that name or
    /// adding one at the end.
    pub fn insert_group(&mut self, name: String, items: Vec<String>)
        requires
            old(self).wf(),
        ensures
            final(self).wf(),
            final(self)@ == with_group(old(self)@, name@, string_views(items@)),
    {
        let ghost m = self@;
        let g = Group { name, items };
        match self.find(&g.name) {
            Some(i) => {
                self.entries.set(i, g);
                assert(self@ =~= m.update(i as int, g@));
            },
            None => {
                self.entries.push(g);
                assert(self@ =~= m.push(g@));
            },
        }
    }

    /// Puts every group of `other` into `self` in order, as `HashMap::extend` does.
    pub fn extend(&mut self, other: Groups)
        requires
            old(self).wf(),
        ensures
            final(self).wf(),
            final(self)@ == extended(old(self)@, other@),
    {
        let ghost m0 = self@;
        let ghost o = other@;
        assert(o.len() == other.entries@.len());
        let n = other.entries.len();
        assert(o.len() <= usize::MAX);
        let mut rest = other.entries;
        let mut taken: Vec<Group> = Vec::new();
        // Move the groups out back to front, then put them in front to back.
        while rest.len() > 0
            invariant
                rest@.map_values(|g: Group| g@) + taken@.map_values(|g: Group| g@).reverse() == o,
                o.len() <= usize::MAX,
            decreases rest.len(),
        {
            let ghost r0 = rest@;
            let ghost t0 = taken@;
            let g = rest.pop().unwrap();
            taken.push(g);
            assert(rest@.map_values(|g: Group| g@) + taken@.map_values(|g: Group| g@).reverse()
                =~= r0.map_values(|g: Group| g@) + t0.map_values(|g: Group| g@).reverse());
        }
        let ghost all = taken@.map_values(|g: Group| g@).reverse();
        assert(all =~= o);
        let mut k: usize = 0;
        while taken.len() > 0
            invariant
                self.wf(),
                k + taken.len() == o.len(),
                o.len() <= usize::MAX,
                taken@.map_values(|g: Group| g@).reverse() == o.skip(k as int),
                self@ == extended(m0, o.take(k as int)),
            decreases taken.len(),
        {
            let ghost t0 = taken@;
            let g = taken.pop().unwrap();
            assert(g@ == o[k as int]) by {
                assert(t0.map_values(|g: Group| g@).reverse()[0] == o.skip(k as int)[0]);
            }
            assert(taken@ =~= t0.drop_last());
            assert(taken@.map_values(|g: Group| g@).reverse()
                =~= t0.map_values(|g: Group| g@).reverse().drop_first());
            assert(o.skip(k as int).drop_first() =~= o.skip(k + 1));
            assert(o.take(k + 1).drop_last() =~= o.take(k as int));
            self.insert_group(g.name, g.items);
            k = k + 1;
        }
        assert(o.take(k as int) =~= o);
    }

    /// `items` with every item after its first occurrence dropped.
    pub fn dedup_items(items: &Vec<String>) -> (r: Vec<String>)
        ensures
            string_views(r@) == string_views(items@).remove_duplicates(Seq::<Seq<char>>::empty()),
    {
        let mut seen: Vec<String> = Vec::new();
        let mut i: usize = 0;
        assert(string_views(items@).take(0).remove_duplicates(Seq::<Seq<char>>::empty())
            =~= Seq::<Seq<char>>::empty());
        while i < items.len()
            invariant
                i <= items.len(),
                string_views(seen@) == string_views(items@).take(i as int).remove_duplicates(
                    Seq::<Seq<char>>::empty(),
                ),
            decreases items.len() - i,
        {
            let ghost s = string_views(items@);
            let mut found = false;
            let mut j: usize = 0;
            while j < seen.len()
                invariant
                    j <= seen.len(),
                    !found ==> forall|m: int| 0 <= m < j ==> string_views(seen@)[m] != items@[i as int]@,
                    found ==> string_views(seen@).contains(items@[i as int]@),
                    i < items.len(),
                    string_views(seen@) == string_views(items@).take(i as int).remove_duplicates(
                        Seq::<Seq<char>>::empty(),
                    ),
                decreases seen.len() - j,
            {
                if seen[j] == items[i] {
                    assert(string_views(seen@)[j as int] == items@[i as int]@);
                    found = true;
                }
                j = j + 1;
            }
            proof {
                s.take(i as int).lemma_remove_duplicates_append(s[i as int], Seq::empty());
                assert(s.take(i as int) + seq![s[i as int]] =~= s.take(i + 1));
                s.take(i as int).lemma_remove_duplicates_properties(Seq::empty());
                assert(s.take(i as int) + Seq::<Seq<char>>::empty() =~= s.take(i as int));
            }
            if !found {
                let ghost before = seen@;
                assert(!string_views(seen@).contains(s[i as int]));
                seen.push(items[i].clone());
                assert(string_views(seen@) =~= string_views(before).push(s[i as int]));
                assert(string_views(seen@) == s.take(i + 1).remove_duplicates(Seq::<Seq<char>>::empty()));
            } else {
                assert(string_views(seen@) == s.take(i + 1).remove_duplicates(Seq::<Seq<char>>::empty()));
            }
            i = i + 1;
        }
        assert(string_views(items@).take(items.len() as int) =~= string_views(items@));
        seen
    }
}

/// For each group, keeps the first occurrence of every item and drops its repeats,
/// leaving the groups and their order as they are.
pub fn dedup_preserve_order(groups: Groups) -> (r: Groups)
    requires
        groups.wf(),
    ensures
        r.wf(),
        r@ == deduplicated(groups@),
{
    let mut out: Vec<Group> = Vec::new();
    let mut i: usize = 0;
    while i < groups.entries.len()
        invariant
            i <= groups.entries.len(),
            out@.map_values(|g: Group| g@) == deduplicated(groups@).take(i as int),
        decreases groups.entries.len() - i,
    {
        let g = &groups.entries[i];
        let items = Groups::dedup_items(&g.items);
        let ng = Group { name: g.name.clone(), items };
        let ghost before = out@;
        out.push(ng);
        assert(ng@ == deduplicated(groups@)[i as int]);
        assert(out@.map_values(|g: Group| g@) =~= before.map_values(|g: Group| g@).push(ng@));
        assert(out@.map_values(|g: Group| g@) =~= deduplicated(groups@).take(i + 1));
        i = i + 1;
    }
    let r = Groups { entries: out };
    assert(r@ =~= deduplicated(groups@));
    r
}

/// The items that `pairs` gives the group named `k`, in order.
pub open spec fn items_for(pairs: Seq<(Seq<char>, Seq<char>)>, k: Seq<char>) -> Seq<Seq<char>> {
    pairs.filter_map(
        |p: (Seq<char>, Seq<char>)|
            if p.0 == k {
                Some(p.1)
            } else {
                None
            },
    )
}

/// Whether every item of every group of `m` satisfies `p`.
pub open spec fn all_items(m: GroupModel, p: spec_fn(Seq<char>) -> bool) -> bool {
    forall|i: int, j: int| 0 <= i < m.len() && 0 <= j < m[i].1.len() ==> p(#[trigger] m[i].1[j])
}

/// Adding an item that satisfies `p` keeps every item satisfying `p`.
pub proof fn lemma_with_item_all(
    m: GroupModel,
    k: Seq<char>,
    v: Seq<char>,
    p: spec_fn(Seq<char>) -> bool,
)
    requires
        all_items(m, p),
        p(v),
    ensures
        all_items(with_item(m, k, v), p),
{
    let r = with_item(m, k, v);
    assert forall|i: int, j: int| 0 <= i < r.len() && 0 <= j < r[i].1.len() implies p(
        #[trigger] r[i].1[j],
    ) by {
        if has_group(m, k) {
            let g = group_index(m, k);
            if i == g {
                if j < m[g].1.len() {
                    assert(r[i].1[j] == m[g].1[j]);
                } else {
                    assert(r[i].1[j] == v);
                }
            } else {
                assert(r[i] == m[i]);
            }
        } else if i < m.len() {
            assert(r[i] == m[i]);
        } else {
            assert(r[i].1 == seq![v]);
        }
    }
}

/// In a map whose items all satisfy `p`, so do the items of each named group.
pub proof fn lemma_all_items_of(m: GroupModel, p: spec_fn(Seq<char>) -> bool, k: Seq<char>)
    requires
        all_items(m, p),
    ensures
        forall|j: int| 0 <= j < items_of(m, k).len() ==> p(#[trigger] items_of(m, k)[j]),
{
    if has_group(m, k) {
        let g = group_index(m, k);
        assert forall|j: int| 0 <= j < items_of(m, k).len() implies p(#[trigger] items_of(m, k)[j]) by {
            assert(items_of(m, k)[j] == m[g].1[j]);
        }
    }
}

/// Whether every group of `m` holds at least one item.
pub open spec fn no_empty_group(m: GroupModel) -> bool {
    forall|i: int| 0 <= i < m.len() ==> #[trigger] m[i].1.len() > 0
}

/// Adding an item leaves no group empty where none was.
pub proof fn lemma_with_item_no_empty(m: GroupModel, k: Seq<char>, v: Seq<char>)
    requires
        no_empty_group(m),
    ensures
        no_empty_group(with_item(m, k, v)),
{
    let r = with_item(m, k, v);
    assert forall|i: int| 0 <= i < r.len() implies #[trigger] r[i].1.len() > 0 by {
        if has_group(m, k) {
            let g = group_index(m, k);
            if i != g {
                assert(r[i] == m[i]);
            }
        } else if i < m.len() {
            assert(r[i] == m[i]);
        }
    }
}

/// In a map with no empty group, a group that is there holds an item.
pub proof fn lemma_no_empty_items_of(m: GroupModel, k: Seq<char>)
    requires
        no_empty_group(m),
        has_group(m, k),
    ensures
        items_of(m, k).len() > 0,
{
    let g = group_index(m, k);
    assert(m[g].1.len() > 0);
}

/// Adding one item keeps names distinct, appends the item to its group's items, leaves every
/// other group's items as they were, and creates no group but the item's.
pub proof fn lemma_with_item(m: GroupModel, k: Seq<char>, v: Seq<char>, k2: Seq<char>)
    requires
        names_distinct(m),
    ensures
        names_distinct(with_item(m, k, v)),
        has_group(with_item(m, k, v), k2) <==> (has_group(m, k2) || k2 == k),
        items_of(with_item(m, k, v), k2) == if k2 == k {
            items_of(m, k).push(v)
        } else {
            items_of(m, k2)
        },
{
    let r = with_item(m, k, v);
    if has_group(m, k) {
        let i = group_index(m, k);
        assert(forall|j: int| 0 <= j < m.len() ==> r[j].0 == m[j].0);
        if has_group(m, k2) {
            let j = group_index(m, k2);
            lemma_index_unique(r, k2, j);
        }
        if has_group(r, k2) {
            let j = group_index(r, k2);
            assert(m[j].0 == k2);
        }
    } else {
        assert(names_distinct(r));
        lemma_index_unique(r, k, m.len() as int);
        if has_group(m, k2) {
            let j = group_index(m, k2);
            lemma_index_unique(r, k2, j);
        }
        if k2 != k && has_group(r, k2) {
            let j = group_index(r, k2);
            assert(j < m.len());
            assert(m[j].0 == k2);
        }
    }
}

/// Adding items group by group: names stay distinct, and each group's items are its
/// former items followed, in order, by the items that `pairs` gives it.
pub proof fn lemma_with_items(m: GroupModel, pairs: Seq<(Seq<char>, Seq<char>)>, k: Seq<char>)
    requires
        names_distinct(m),
    ensures
        names_distinct(with_items(m, pairs)),
        items_of(with_items(m, pairs), k) == items_of(m, k) + items_for(pairs, k),
        has_group(with_items(m, pairs), k) <==> (has_group(m, k) || items_for(pairs, k).len() > 0),
    decreases pairs.len(),
{
    if pairs.len() == 0 {
        assert(items_of(m, k) + items_for(pairs, k) =~= items_of(m, k));
    } else {
        let rest = pairs.drop_last();
        let p = pairs.last();
        lemma_with_items(m, rest, k);
        lemma_with_item(with_items(m, rest), p.0, p.1, k);
        if p.0 == k {
            assert(items_for(pairs, k) =~= items_for(rest, k).push(p.1));
            assert(items_of(m, k) + items_for(pairs, k) =~= (items_of(m, k) + items_for(rest, k)).push(p.1));
        } else {
            assert(items_for(pairs, k) =~= items_for(rest, k));
        }
    }
}

/// Putting in a whole group keeps names distinct and gives that group exactly the new items,
/// leaving the other groups as they were.
pub proof fn lemma_with_group(m: GroupModel, k: Seq<char>, items: Seq<Seq<char>>, k2: Seq<char>)
    requires
        names_distinct(m),
    ensures
        names_distinct(with_group(m, k, items)),
        has_group(with_group(m, k, items), k2) <==> (has_group(m, k2) || k2 == k),
        items_of(with_group(m, k, items), k2) == if k2 == k {
            items
        } else {
            items_of(m, k2)
        },
{
    let r = with_group(m, k, items);
    if has_group(m, k) {
        assert(forall|j: int| 0 <= j < m.len() ==> r[j].0 == m[j].0);
        if has_group(m, k2) {
            let j = group_index(m, k2);
            lemma_index_unique(r, k2, j);
        }
        if has_group(r, k2) {
            let j = group_index(r, k2);
            assert(m[j].0 == k2);
        }
    } else {
        assert(names_distinct(r));
        lemma_index_unique(r, k, m.len() as int);
        if has_group(m, k2) {
            let j = group_index(m, k2);
            lemma_index_unique(r, k2, j);
        }
        if k2 != k && has_group(r, k2) {
            let j = group_index(r, k2);
            assert(j < m.len());
            assert(m[j].0 == k2);
        }
    }
}

/// After `extend`, a group named in `other` holds exactly the items it has in `other`; every
/// other group keeps its items; names stay distinct.
pub proof fn lemma_extended(m: GroupModel, other: GroupModel, k: Seq<char>)
    requires
        names_distinct(m),
        names_distinct(other),
    ensures
        names_distinct(extended(m, other)),
        has_group(extended(m, other), k) <==> (has_group(m, k) || has_group(other, k)),
        items_of(extended(m, other), k) == if has_group(other, k) {
            items_of(other, k)
        } else {
            items_of(m, k)
        },
    decreases other.len(),
{
    if other.len() > 0 {
        let rest = other.drop_last();
        let e = other.last();
        assert(names_distinct(rest));
        lemma_extended(m, rest, k);
        lemma_with_group(extended(m, rest), e.0, e.1, k);
        if e.0 == k {
            lemma_index_unique(other, k, other.len() - 1);
        } else {
            if has_group(rest, k) {
                let j = group_index(rest, k);
                lemma_index_unique(other, k, j);
            }
            if has_group(other, k) {
                let j = group_index(other, k);
                assert(j < rest.len());
                lemma_index_unique(rest, k, j);
            }
        }
    }
}

/// After `dedup_preserve_order`: the groups and their order are unchanged, no group holds an
/// item twice, and each group holds the same items as before.
pub proof fn lemma_deduplicated(m: GroupModel, i: int)
    requires
        0 <= i < m.len(),
    ensures
        deduplicated(m).len() == m.len(),
        deduplicated(m)[i].0 == m[i].0,
        deduplicated(m)[i].1.no_duplicates(),
        deduplicated(m)[i].1.to_set() == m[i].1.to_set(),
{
    let s = m[i].1;
    lemma_remove_duplicates_no_duplicates(s, Seq::empty());
    s.lemma_remove_duplicates_properties(Seq::empty());
    assert(s + Seq::<Seq<char>>::empty() =~= s);
    assert(deduplicated(m)[i].1.to_set() =~= m[i].1.to_set());
}

/// A second pass of `dedup_preserve_order` changes nothing.
pub proof fn lemma_deduplicated_idempotent(m: GroupModel)
    ensures
        deduplicated(deduplicated(m)) == deduplicated(m),
{
    assert forall|j: int| 0 <= j < m.len() implies #[trigger] deduplicated(deduplicated(m))[j]
        == deduplicated(m)[j] by {
        let t = m[j].1.remove_duplicates(Seq::empty());
        lemma_remove_duplicates_no_duplicates(m[j].1, Seq::empty());
        lemma_remove_duplicates_of_distinct(t, Seq::empty());
    }
    assert(deduplicated(deduplicated(m)) =~= deduplicated(m));
}

/// With no duplicates in `seen`, removing duplicates leaves none.
proof fn lemma_remove_duplicates_no_duplicates(s: Seq<Seq<char>>, seen: Seq<Seq<char>>)
    requires
        seen.no_duplicates(),
    ensures
        s.remove_duplicates(seen).no_duplicates(),
    decreases s.len(),
{
    if s.len() > 0 {
        if seen.contains(s[0]) {
            lemma_remove_duplicates_no_duplicates(s.skip(1), seen);
        } else {
            let seen2 = seen + seq![s[0]];
            assert(seen2.no_duplicates());
            lemma_remove_duplicates_no_duplicates(s.skip(1), seen2);
        }
    }
}

/// Removing duplicates from a sequence that has none, disjoint from `seen`, appends it whole.
proof fn lemma_remove_duplicates_of_distinct(s: Seq<Seq<char>>, seen: Seq<Seq<char>>)
    requires
        s.no_duplicates(),
        forall|x: Seq<char>| s.contains(x) ==> !seen.contains(x),
    ensures
        s.remove_duplicates(seen) == seen + s,
    decreases s.len(),
{
    if s.len() == 0 {
        assert(seen + s =~= seen);
    } else {
        assert(s.contains(s[0]));
        let seen2 = seen + seq![s[0]];
        let t = s.skip(1);
        assert forall|x: Seq<char>| t.contains(x) implies !seen2.contains(x) by {
            let j = choose|j: int| 0 <= j < t.len() && t[j] == x;
            assert(s[j + 1] == x);
            assert(s.contains(x));
            if seen2.contains(x) {
                let q = choose|q: int| 0 <= q < seen2.len() && seen2[q] == x;
                if q < seen.len() {
                    assert(seen.contains(x));
                } else {
                    assert(x == s[0]);
                }
            }
        }
        lemma_remove_duplicates_of_distinct(t, seen2);
        assert(seen2 + t =~= seen + s);
    }
}

} // verus!
