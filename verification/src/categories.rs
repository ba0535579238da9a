//! Filling the emoji resource file's string arrays from the emoji groups.
use vstd::prelude::*;
use crate::array_tables::{emoji_arrays, emoji_script_arrays, emoji_script_table, emoji_table, pair_views};
use crate::emoji_test::{emoji_test_groups, parse_emoji_test_grouped};
use crate::groups::{
    dedup_preserve_order, deduplicated, extended, items_for, items_of, lemma_with_items,
    names_distinct, Groups, GroupModel, with_items,
};
use crate::kaomoji::{group_kaomojis, kaomoji_groups, root_views, KaomojiRoot};
use crate::text::{chars_of, lines, lines_of, char_views, string_of, string_views};
use crate::xml_array::{
    android_array_block, android_block, array_block, array_pattern, emoji_array_block,
    regex_compiles, regex_replaced, replace_array_block, ArrayUpdateError,
};

verus! {

/// The array that `table` gives the group named `group`: the first entry for that name.
pub open spec fn table_lookup(table: Seq<(Seq<char>, Seq<char>)>, group: Seq<char>) -> Option<
    Seq<char>,
>
    decreases table.len(),
{
    if table.len() == 0 {
        None
    } else if table[0].0 == group {
        Some(table[0].1)
    } else {
        table_lookup(table.drop_first(), group)
    }
}

/// The element that replaces the array `array`: items XML-escaped where `escape` holds.
pub open spec fn replacement_block(array: Seq<char>, items: Seq<Seq<char>>, escape: bool) -> Seq<
    char,
> {
    if escape {
        android_block(array, items)
    } else {
        array_block(array, items)
    }
}

/// `content` after the array of each group of `m` that `table` maps has been replaced, group
/// after group; `None` where the regex of one of those arrays does not compile.
pub open spec fn arrays_applied(
    content: Seq<char>,
    m: GroupModel,
    table: Seq<(Seq<char>, Seq<char>)>,
    escape: bool,
) -> Option<Seq<char>>
    decreases m.len(),
{
    if m.len() == 0 {
        Some(content)
    } else {
        match arrays_applied(content, m.drop_last(), table, escape) {
            None => None,
            Some(c) => match table_lookup(table, m.last().0) {
                None => Some(c),
                Some(a) => if regex_compiles(array_pattern(a)) {
                    Some(regex_replaced(array_pattern(a), c, replacement_block(a, m.last().1, escape)))
                } else {
                    None
                },
            },
        }
    }
}

/// The arrays that the groups of `m` replace, with the element that each gets, in order.
pub open spec fn array_updates(
    m: GroupModel,
    table: Seq<(Seq<char>, Seq<char>)>,
    escape: bool,
) -> Seq<(Seq<char>, Seq<char>)> {
    m.filter_map(
        |e: (Seq<char>, Seq<Seq<char>>)|
            match table_lookup(table, e.0) {
                Some(a) => Some((a, replacement_block(a, e.1, escape))),
                None => None,
            },
    )
}

/// The names of the groups of `m` that `table` maps to no array, in order.
pub open spec fn unmapped_groups(m: GroupModel, table: Seq<(Seq<char>, Seq<char>)>) -> Seq<
    Seq<char>,
> {
    m.filter_map(
        |e: (Seq<char>, Seq<Seq<char>>)|
            if table_lookup(table, e.0) is None {
                Some(e.0)
            } else {
                None
            },
    )
}

/// Once replacing fails for a prefix of the groups, it fails for all of them.
proof fn lemma_applied_none_extends(
    content: Seq<char>,
    m: GroupModel,
    table: Seq<(Seq<char>, Seq<char>)>,
    escape: bool,
    j: int,
)
    requires
        0 <= j <= m.len(),
        arrays_applied(content, m.take(j), table, escape) is None,
    ensures
        arrays_applied(content, m, table, escape) is None,
    decreases m.len() - j,
{
    if j == m.len() {
        assert(m.take(j) =~= m);
    } else {
        assert(m.take(j + 1).drop_last() =~= m.take(j));
        lemma_applied_none_extends(content, m, table, escape, j + 1);
    }
}

/// The outcome of filling the string arrays of a resource file.
pub struct ArrayUpdates {
    /// The resource file after all replacements.
    pub content: String,
    /// Each array that was replaced, with the element put in its place, in order.
    pub updated: Vec<(String, String)>,
    /// The groups that no array takes, in order.
    pub skipped: Vec<String>,
}

/// The array that `table` gives the group named `group`.
pub fn lookup_array(table: &Vec<(String, String)>, group: &String) -> (r: Option<String>)
    ensures
        match r {
            None => table_lookup(pair_views(table@), group@) is None,
            Some(a) => table_lookup(pair_views(table@), group@) == Some(a@),
        },
{
    let ghost t = pair_views(table@);
    let mut k: usize = 0;
    assert(t.skip(0) =~= t);
    while k < table.len()
        invariant
            k <= table.len(),
            t == pair_views(table@),
            table_lookup(t, group@) == table_lookup(t.skip(k as int), group@),
        decreases table.len() - k,
    {
        assert(t.skip(k as int)[0] == (table@[k as int].0@, table@[k as int].1@));
        if table[k].0 == *group {
            return Some(table[k].1.clone());
        }
        assert(t.skip(k as int).drop_first() =~= t.skip(k + 1));
        k = k + 1;
    }
    None
}

/// Replaces, group after group, the array that `table` gives each group of `groups`
/// with one that lists the group's items (XML-escaped where `escape` holds).
pub fn update_group_arrays(
    template: &str,
    groups: &Groups,
    table: &Vec<(String, String)>,
    escape: bool,
) -> (r: Result<ArrayUpdates, ArrayUpdateError>)
    ensures
        r is Ok <==> arrays_applied(template@, groups@, pair_views(table@), escape) is Some,
        r matches Ok(u) ==> {
            &&& Some(u.content@) == arrays_applied(template@, groups@, pair_views(table@), escape)
            &&& pair_views(u.updated@) == array_updates(groups@, pair_views(table@), escape)
            &&& string_views(u.skipped@) == unmapped_groups(groups@, pair_views(table@))
        },
{
    let ghost t = pair_views(table@);
    let ghost m = groups@;
    let mut content = string_of(&chars_of(template));
    let mut updated: Vec<(String, String)> = Vec::new();
    let mut skipped: Vec<String> = Vec::new();
    let mut k: usize = 0;
    while k < groups.len()
        invariant
            k <= groups@.len(),
            t == pair_views(table@),
            m == groups@,
            arrays_applied(template@, m.take(k as int), t, escape) == Some(content@),
            pair_views(updated@) == array_updates(m.take(k as int), t, escape),
            string_views(skipped@) == unmapped_groups(m.take(k as int), t),
        decreases groups@.len() - k,
    {
        let g = groups.group_at(k);
        proof {
            assert(m.take(k + 1).drop_last() =~= m.take(k as int));
            assert(m.take(k + 1).last() == m[k as int]);
        }
        match lookup_array(table, &g.name) {
            None => {
                let ghost before = skipped@;
                skipped.push(g.name.clone());
                assert(string_views(skipped@) =~= string_views(before).push(g.name@));
            },
            Some(a) => {
                let block = if escape {
                    android_array_block(a.as_str(), g.items.as_slice())
                } else {
                    emoji_array_block(a.as_str(), g.items.as_slice())
                };
                let next = replace_array_block(content.as_str(), a.as_str(), block.as_str());
                match next {
                    Err(e) => {
                        proof {
                            lemma_applied_none_extends(template@, m, t, escape, k + 1);
                        }
                        return Err(e);
                    },
                    Ok(c) => {
                        content = c;
                    },
                }
                let ghost before = updated@;
                updated.push((a, block));
                assert(pair_views(updated@) =~= pair_views(before).push((a@, block@)));
            },
        }
        k = k + 1;
    }
    assert(m.take(groups@.len() as int) =~= m);
    Ok(ArrayUpdates { content, updated, skipped })
}

/// The (group, item) pairs that put each line of `text` into the group named `group`.
pub open spec fn line_items(group: Seq<char>, text: Seq<char>) -> Seq<(Seq<char>, Seq<char>)> {
    lines(text).map_values(|l: Seq<char>| (group, l))
}

/// Appends each line of `text` to the group named `group`.
pub fn add_lines_to_group(groups: &mut Groups, group: &str, text: &str)
    requires
        old(groups).wf(),
    ensures
        final(groups).wf(),
        final(groups)@ == with_items(old(groups)@, line_items(group@, text@)),
{
    let ghost m0 = groups@;
    let ls = lines_of(&chars_of(text));
    let ghost ps = line_items(group@, text@);
    let mut k: usize = 0;
    assert(ps.take(0) =~= Seq::<(Seq<char>, Seq<char>)>::empty());
    while k < ls.len()
        invariant
            k <= ls.len(),
            char_views(ls@) == lines(text@),
            ps == line_items(group@, text@),
            groups.wf(),
            groups@ == with_items(m0, ps.take(k as int)),
        decreases ls.len() - k,
    {
        groups.push_item(string_of(&chars_of(group)), string_of(&ls[k]));
        assert(ps.take(k + 1).drop_last() =~= ps.take(k as int));
        assert(ps[k as int] == (group@, ls@[k as int]@));
        k = k + 1;
    }
    assert(ps.take(ls.len() as int) =~= ps);
}

/// The group that the lines of the emoticon list go to.
pub open spec fn emoticons_group() -> Seq<char> {
    "Emoticons"@
}

/// The groups of the emoji script: those of `emoji-test.txt` with the emoticon lines added.
pub open spec fn emoji_script_groups(emoji_test: Seq<char>, emoticons: Seq<char>) -> GroupModel {
    with_items(emoji_test_groups(emoji_test), line_items(emoticons_group(), emoticons))
}

/// The groups of the emoji tool: those of the emoji script, then the kaomoji groups with
/// repeated emoticons dropped, each replacing a group of the same name.
pub open spec fn emoji_tool_groups(
    emoji_test: Seq<char>,
    emoticons: Seq<char>,
    kaomojis: Seq<(Seq<char>, Seq<(Seq<char>, Seq<Seq<char>>)>)>,
) -> GroupModel {
    extended(emoji_script_groups(emoji_test, emoticons), deduplicated(kaomoji_groups(kaomojis)))
}

/// What the emoji script computes: the resource template with each of its emoji arrays
/// filled from `emoji-test.txt` and the emoticon list.
pub fn emoji_script_document(template: &str, emoji_test: &str, emoticons: &str) -> (r: Result<
    ArrayUpdates,
    ArrayUpdateError,
>)
    ensures
        r is Ok <==> arrays_applied(
            template@,
            emoji_script_groups(emoji_test@, emoticons@),
            emoji_script_table(),
            false,
        ) is Some,
        r matches Ok(u) ==> {
            let m = emoji_script_groups(emoji_test@, emoticons@);
            &&& Some(u.content@) == arrays_applied(template@, m, emoji_script_table(), false)
            &&& pair_views(u.updated@) == array_updates(m, emoji_script_table(), false)
            &&& string_views(u.skipped@) == unmapped_groups(m, emoji_script_table())
        },
{
    let mut groups = parse_emoji_test_grouped(emoji_test);
    add_lines_to_group(&mut groups, "Emoticons", emoticons);
    let table = emoji_script_arrays();
    update_group_arrays(template, &groups, &table, false)
}

/// What the emoji tool computes: the resource template with each of its emoji and kaomoji
/// arrays filled, items XML-escaped.
pub fn emoji_tool_document(
    template: &str,
    emoji_test: &str,
    emoticons: &str,
    kaomojis: &Vec<KaomojiRoot>,
) -> (r: Result<ArrayUpdates, ArrayUpdateError>)
    ensures
        r is Ok <==> arrays_applied(
            template@,
            emoji_tool_groups(emoji_test@, emoticons@, root_views(kaomojis@)),
            emoji_table(),
            true,
        ) is Some,
        r matches Ok(u) ==> {
            let m = emoji_tool_groups(emoji_test@, emoticons@, root_views(kaomojis@));
            &&& Some(u.content@) == arrays_applied(template@, m, emoji_table(), true)
            &&& pair_views(u.updated@) == array_updates(m, emoji_table(), true)
            &&& string_views(u.skipped@) == unmapped_groups(m, emoji_table())
        },
{
    let mut groups = parse_emoji_test_grouped(emoji_test);
    add_lines_to_group(&mut groups, "Emoticons", emoticons);
    let kaomoji = dedup_preserve_order(group_kaomojis(kaomojis));
    groups.extend(kaomoji);
    let table = emoji_arrays();
    update_group_arrays(template, &groups, &table, true)
}

/// `content` with each `(array, element)` of `updates` put in place of that array, in order.
pub open spec fn apply_updates(content: Seq<char>, updates: Seq<(Seq<char>, Seq<char>)>) -> Seq<
    char,
>
    decreases updates.len(),
{
    if updates.len() == 0 {
        content
    } else {
        regex_replaced(
            array_pattern(updates.last().0),
            apply_updates(content, updates.drop_last()),
            updates.last().1,
        )
    }
}

/// Each array that is replaced gets an element named after that array, listing the items
/// of a group that the table maps to it: `array_block(a, items)`, or
/// `android_block(a, items)` where the items are escaped. So the filled file still holds an
/// `<array name="a">` for each array it fills.
pub proof fn lemma_updates_keep_array_names(
    m: GroupModel,
    table: Seq<(Seq<char>, Seq<char>)>,
    escape: bool,
    j: int,
)
    requires
        0 <= j < array_updates(m, table, escape).len(),
    ensures
        exists|i: int|
            0 <= i < m.len() && table_lookup(table, #[trigger] m[i].0) == Some(
                array_updates(m, table, escape)[j].0,
            ) && array_updates(m, table, escape)[j].1 == if escape {
                android_block(array_updates(m, table, escape)[j].0, m[i].1)
            } else {
                array_block(array_updates(m, table, escape)[j].0, m[i].1)
            },
    decreases m.len(),
{
    let u = array_updates(m, table, escape);
    let rest = array_updates(m.drop_last(), table, escape);
    let e = m.last();
    if j < rest.len() {
        match table_lookup(table, e.0) {
            Some(a) => {
                assert(u == rest + seq![(a, replacement_block(a, e.1, escape))]);
            },
            None => {},
        }
        assert(u[j] == rest[j]);
        lemma_updates_keep_array_names(m.drop_last(), table, escape, j);
        let i = choose|i: int|
            0 <= i < m.drop_last().len() && table_lookup(table, #[trigger] m.drop_last()[i].0)
                == Some(rest[j].0) && rest[j].1 == if escape {
                android_block(rest[j].0, m.drop_last()[i].1)
            } else {
                array_block(rest[j].0, m.drop_last()[i].1)
            };
        assert(m[i] == m.drop_last()[i]);
    } else {
        match table_lookup(table, e.0) {
            Some(a) => {
                assert(u == rest + seq![(a, replacement_block(a, e.1, escape))]);
                assert(u[j] == (a, replacement_block(a, e.1, escape)));
                assert(m[m.len() - 1] == e);
            },
            None => {
                assert(u == rest);
            },
        }
    }
}

/// Where every array's regex compiles, the filled file is the template with the listed
/// updates put in, one after the other.
pub proof fn lemma_applied_is_updates(
    content: Seq<char>,
    m: GroupModel,
    table: Seq<(Seq<char>, Seq<char>)>,
    escape: bool,
)
    requires
        arrays_applied(content, m, table, escape) is Some,
    ensures
        arrays_applied(content, m, table, escape) == Some(
            apply_updates(content, array_updates(m, table, escape)),
        ),
    decreases m.len(),
{
    if m.len() > 0 {
        let e = m.last();
        let rest = array_updates(m.drop_last(), table, escape);
        assert(arrays_applied(content, m.drop_last(), table, escape) is Some);
        lemma_applied_is_updates(content, m.drop_last(), table, escape);
        match table_lookup(table, e.0) {
            Some(a) => {
                let u = rest + seq![(a, replacement_block(a, e.1, escape))];
                assert(array_updates(m, table, escape) == u);
                assert(u.drop_last() =~= rest);
                assert(u.last() == (a, replacement_block(a, e.1, escape)));
            },
            None => {},
        }
    }
}

/// Each group either has its array replaced or is reported as skipped, never both: the
/// replaced arrays and the skipped groups together are as many as the groups.
pub proof fn lemma_updates_partition(m: GroupModel, table: Seq<(Seq<char>, Seq<char>)>, escape: bool)
    ensures
        array_updates(m, table, escape).len() + unmapped_groups(m, table).len() == m.len(),
    decreases m.len(),
{
    if m.len() > 0 {
        lemma_updates_partition(m.drop_last(), table, escape);
    }
}

/// A document whose groups all lack an array in the table comes back unchanged.
pub proof fn lemma_unmapped_groups_change_nothing(
    content: Seq<char>,
    m: GroupModel,
    table: Seq<(Seq<char>, Seq<char>)>,
    escape: bool,
)
    requires
        forall|i: int| 0 <= i < m.len() ==> table_lookup(table, #[trigger] m[i].0) is None,
    ensures
        arrays_applied(content, m, table, escape) == Some(content),
    decreases m.len(),
{
    if m.len() > 0 {
        assert forall|i: int| 0 <= i < m.drop_last().len() implies table_lookup(table, #[trigger] m.drop_last()[i].0) is None by {
            assert(m.drop_last()[i] == m[i]);
        }
        lemma_unmapped_groups_change_nothing(content, m.drop_last(), table, escape);
        assert(table_lookup(table, m[m.len() - 1].0) is None);
    }
}

proof fn lemma_items_for_line_items(group: Seq<char>, ls: Seq<Seq<char>>)
    ensures
        items_for(ls.map_values(|l: Seq<char>| (group, l)), group) == ls,
    decreases ls.len(),
{
    if ls.len() > 0 {
        lemma_items_for_line_items(group, ls.drop_last());
        assert(ls.map_values(|l: Seq<char>| (group, l)).drop_last() =~= ls.drop_last().map_values(
            |l: Seq<char>| (group, l),
        ));
        assert(ls.drop_last().push(ls.last()) =~= ls);
    }
}

/// Injecting a text into a group appends its lines, in order, to that group's items and
/// leaves every other group as it was.
pub proof fn lemma_lines_injected(m: GroupModel, group: Seq<char>, text: Seq<char>, k: Seq<char>)
    requires
        names_distinct(m),
    ensures
        items_of(with_items(m, line_items(group, text)), k) == if k == group {
            items_of(m, k) + lines(text)
        } else {
            items_of(m, k)
        },
{
    let ps = line_items(group, text);
    lemma_with_items(m, ps, k);
    if k == group {
        lemma_items_for_line_items(group, lines(text));
    } else {
        lemma_items_for_other(ps, k, group);
        assert(items_of(m, k) + items_for(ps, k) =~= items_of(m, k));
    }
}

proof fn lemma_items_for_other(ps: Seq<(Seq<char>, Seq<char>)>, k: Seq<char>, group: Seq<char>)
    requires
        k != group,
        forall|i: int| 0 <= i < ps.len() ==> #[trigger] ps[i].0 == group,
    ensures
        items_for(ps, k) == Seq::<Seq<char>>::empty(),
    decreases ps.len(),
{
    if ps.len() > 0 {
        assert forall|i: int| 0 <= i < ps.drop_last().len() implies #[trigger] ps.drop_last()[i].0 == group by {
            assert(ps.drop_last()[i] == ps[i]);
        }
        lemma_items_for_other(ps.drop_last(), k, group);
        assert(ps[ps.len() - 1].0 == group);
    }
}

} // verus!
