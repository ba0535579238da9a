//! Reading Unicode's `emoji-test.txt` into emoji groups.
use vstd::prelude::*;
use crate::groups::{
    Groups, GroupModel, all_items, has_group, items_of, lemma_all_items_of, lemma_no_empty_items_of,
    lemma_with_item, lemma_with_item_all, lemma_with_item_no_empty, names_distinct,
    no_empty_group, with_item,
};
use crate::text::{
    crlf, is_white_space, lemma_first_index_of_is, lemma_lines_append,
    lemma_lines_crlf, occurs_at, strip_cr, trim_end, trim_start, char_views, chars_eq, chars_of, concat_chars, contains_chars, contains_seq, copy_range, join,
    join_chars, lines, lines_of, split_once, split_once_chars, split_whitespace,
    split_whitespace_chars, starts_with_chars, string_of, trim, trim_chars, upper_case,
    upper_case_chars,
};

verus! {

/// The start of a group header line.
pub open spec fn group_marker() -> Seq<char> {
    "# group: "@
}

/// Header lines that hold this word name no group.
pub open spec fn component_word() -> Seq<char> {
    "Component"@
}

/// The group that is merged into `smileys_group()`.
pub open spec fn people_group() -> Seq<char> {
    "People & Body"@
}

/// The group whose entries are also copied into its "boring" twin.
pub open spec fn smileys_group() -> Seq<char> {
    "Smileys & Emotion"@
}

/// What the twin group's name adds to `smileys_group()`.
pub open spec fn boring_suffix() -> Seq<char> {
    " - boring"@
}

/// The status that marks an emoji entry line.
pub open spec fn fully_qualified_marker() -> Seq<char> {
    "; fully-qualified"@
}

/// Entry lines that hold these words are skipped.
pub open spec fn skin_tone_words() -> Seq<char> {
    "skin tone"@
}

/// The group that a header line opens, if `line` is one: the trimmed text after
/// `"# group: "`, with "People & Body" merged into "Smileys & Emotion".
pub open spec fn header_group(line: Seq<char>) -> Option<Seq<char>> {
    if group_marker().is_prefix_of(line) && !contains_seq(line, component_word()) {
        let g = trim(line.skip(group_marker().len() as int));
        Some(if g == people_group() { smileys_group() } else { g })
    } else {
        None
    }
}

/// The code-point words of an entry, upper-cased and joined with commas.
pub open spec fn code_string(code_points: Seq<char>) -> Seq<char> {
    join(split_whitespace(trim(code_points)).map_values(|w: Seq<char>| upper_case(w)), ","@)
}

/// The emoji that an entry line names, if `line` is one: a fully-qualified entry that is
/// not a skin-tone variant, given by the code points before its first `';'`.
pub open spec fn entry_code(line: Seq<char>) -> Option<Seq<char>> {
    if contains_seq(line, fully_qualified_marker()) && !contains_seq(line, skin_tone_words()) {
        match split_once(line, ';') {
            Some((cp, _)) => Some(code_string(cp)),
            None => None,
        }
    } else {
        None
    }
}

/// The groups and the current group name after one more line.
pub open spec fn after_line(st: (GroupModel, Seq<char>), line: Seq<char>) -> (
    GroupModel,
    Seq<char>,
) {
    match header_group(line) {
        Some(g) => (st.0, g),
        None => match entry_code(line) {
            Some(code) => {
                let m = with_item(st.0, st.1, code);
                if st.1 == smileys_group() {
                    (with_item(m, st.1 + boring_suffix(), code), st.1)
                } else {
                    (m, st.1)
                }
            },
            None => st,
        },
    }
}

/// The groups and the current group name after the lines `ls`, starting from no groups
/// and the empty group name.
pub open spec fn after_lines(ls: Seq<Seq<char>>) -> (GroupModel, Seq<char>)
    decreases ls.len(),
{
    if ls.len() == 0 {
        (Seq::empty(), Seq::empty())
    } else {
        after_line(after_lines(ls.drop_last()), ls.last())
    }
}

/// The emoji groups that the text of an `emoji-test.txt` file lists.
pub open spec fn emoji_test_groups(data: Seq<char>) -> GroupModel {
    after_lines(lines(data)).0
}

/// The code-point words before an entry's `';'`, upper-cased and joined with commas.
fn code_string_exec(code_points: &Vec<char>) -> (r: Vec<char>)
    ensures
        r@ == code_string(code_points@),
{
    let trimmed = trim_chars(code_points);
    let words = split_whitespace_chars(&trimmed);
    let mut upper: Vec<Vec<char>> = Vec::new();
    let mut k: usize = 0;
    let ghost ws = char_views(words@);
    while k < words.len()
        invariant
            k <= words.len(),
            ws == char_views(words@),
            char_views(upper@) == ws.take(k as int).map_values(|w: Seq<char>| upper_case(w)),
        decreases words.len() - k,
    {
        let u = upper_case_chars(&words[k]);
        let ghost before = upper@;
        upper.push(u);
        assert(ws[k as int] == words@[k as int]@);
        assert(char_views(upper@) =~= char_views(before).push(u@));
        assert(char_views(upper@) =~= ws.take(k + 1).map_values(|w: Seq<char>| upper_case(w)));
        k = k + 1;
    }
    assert(ws.take(words.len() as int) =~= ws);
    let comma = chars_of(",");
    join_chars(&upper, &comma)
}

/// Parses the text of Unicode's `emoji-test.txt` into groups of emoji, each emoji written
/// as its upper-case code points joined with commas. "People & Body" is merged into
/// "Smileys & Emotion", whose entries are also copied into "Smileys & Emotion - boring".
pub fn parse_emoji_test_grouped(data: &str) -> (r: Groups)
    ensures
        r.wf(),
        r@ == emoji_test_groups(data@),
{
    let text = chars_of(data);
    let ls = lines_of(&text);
    let marker = chars_of("# group: ");
    let component = chars_of("Component");
    let people = chars_of("People & Body");
    let smileys = chars_of("Smileys & Emotion");
    let boring = chars_of(" - boring");
    let fully_qualified = chars_of("; fully-qualified");
    let skin_tone = chars_of("skin tone");
    let mut groups = Groups::new();
    let mut current: Vec<char> = Vec::new();
    let ghost all = char_views(ls@);
    let mut i: usize = 0;
    while i < ls.len()
        invariant
            i <= ls.len(),
            all == char_views(ls@),
            all == lines(data@),
            marker@ == group_marker(),
            component@ == component_word(),
            people@ == people_group(),
            smileys@ == smileys_group(),
            boring@ == boring_suffix(),
            fully_qualified@ == fully_qualified_marker(),
            skin_tone@ == skin_tone_words(),
            groups.wf(),
            (groups@, current@) == after_lines(all.take(i as int)),
        decreases ls.len() - i,
    {
        let line = &ls[i];
        assert(all.take(i + 1).drop_last() =~= all.take(i as int));
        assert(all.take(i + 1).last() == line@);
        if starts_with_chars(line, &marker) && !contains_chars(line, &component) {
            let rest = copy_range(line, marker.len(), line.len());
            assert(rest@ =~= line@.skip(group_marker().len() as int));
            let g = trim_chars(&rest);
            if chars_eq(&g, &people) {
                current = copy_range(&smileys, 0, smileys.len());
                assert(current@ =~= smileys@);
            } else {
                current = g;
            }
        } else if contains_chars(line, &fully_qualified) && !contains_chars(line, &skin_tone) {
            match split_once_chars(line, ';') {
                Some((cp, _rest)) => {
                    let code = code_string_exec(&cp);
                    groups.push_item(string_of(&current), string_of(&code));
                    if chars_eq(&current, &smileys) {
                        let twin = concat_chars(&current, &boring);
                        groups.push_item(string_of(&twin), string_of(&code));
                    }
                },
                None => {},
            }
        }
        i = i + 1;
    }
    assert(all.take(ls.len() as int) =~= all);
    groups
}

/// Where an occurrence in a part of `s` is an occurrence in `s`.
proof fn lemma_contains_subrange(s: Seq<char>, w: Seq<char>, a: int, b: int)
    requires
        0 <= a <= b <= s.len(),
        contains_seq(s.subrange(a, b), w),
    ensures
        contains_seq(s, w),
{
    let i = choose|i: int| occurs_at(s.subrange(a, b), w, i);
    assert(s.subrange(a + i, a + i + w.len()) =~= s.subrange(a, b).subrange(i, i + w.len()));
    assert(occurs_at(s, w, a + i));
}

/// `trim_start(s)` is a suffix of `s`.
proof fn lemma_trim_start_within(s: Seq<char>) -> (a: int)
    ensures
        0 <= a <= s.len(),
        trim_start(s) == s.subrange(a, s.len() as int),
    decreases s.len(),
{
    if s.len() > 0 && is_white_space(s[0]) {
        let a = lemma_trim_start_within(s.drop_first());
        assert(s.drop_first().subrange(a, s.drop_first().len() as int) =~= s.subrange(a + 1, s.len() as int));
        a + 1
    } else {
        assert(s.subrange(0, s.len() as int) =~= s);
        0
    }
}

/// `trim_end(s)` is a prefix of `s`.
proof fn lemma_trim_end_within(s: Seq<char>) -> (b: int)
    ensures
        0 <= b <= s.len(),
        trim_end(s) == s.subrange(0, b),
    decreases s.len(),
{
    if s.len() > 0 && is_white_space(s.last()) {
        let b = lemma_trim_end_within(s.drop_last());
        assert(s.drop_last().subrange(0, b) =~= s.subrange(0, b));
        b
    } else {
        assert(s.subrange(0, s.len() as int) =~= s);
        s.len() as int
    }
}

/// A word that a header line does not hold is not in the group name it opens.
proof fn lemma_header_within(line: Seq<char>, w: Seq<char>)
    requires
        group_marker().is_prefix_of(line),
        !contains_seq(line, w),
    ensures
        !contains_seq(trim(line.skip(group_marker().len() as int)), w),
{
    let n = group_marker().len() as int;
    let t = line.skip(n);
    let a = lemma_trim_start_within(t);
    let u = trim_start(t);
    let b = lemma_trim_end_within(u);
    assert(trim(t) =~= line.subrange(n + a, n + a + b));
    if contains_seq(trim(t), w) {
        lemma_contains_subrange(line, w, n + a, n + a + b);
    }
}

/// The names of the twin, of "Smileys & Emotion" and of "People & Body" differ, and neither
/// of the first two holds "Component".
proof fn lemma_name_facts()
    ensures
        smileys_group() + boring_suffix() != people_group(),
        smileys_group() != people_group(),
        smileys_group() + boring_suffix() != smileys_group(),
        !contains_seq(smileys_group(), component_word()),
        !contains_seq(smileys_group() + boring_suffix(), component_word()),
        !contains_seq(Seq::<char>::empty(), component_word()),
        people_group() != Seq::<char>::empty(),
        smileys_group() + boring_suffix() != Seq::<char>::empty(),
{
    reveal_strlit("Smileys & Emotion");
    reveal_strlit(" - boring");
    reveal_strlit("People & Body");
    reveal_strlit("Component");
    let s = smileys_group();
    let t = smileys_group() + boring_suffix();
    assert(s.len() == 17);
    assert(t.len() == 26);
    assert(component_word()[0] == 'C');
    assert(people_group().len() == 13);
    assert forall|i: int| 0 <= i < t.len() implies t[i] != 'C' by {
        if i < 17 {
            assert(t[i] == s[i]);
        } else {
            assert(t[i] == boring_suffix()[i - 17]);
        }
    }
    if contains_seq(s, component_word()) {
        let i = choose|i: int| occurs_at(s, component_word(), i);
        assert(s.subrange(i, i + 9)[0] == s[i]);
        assert(t[i] == s[i]);
    }
    if contains_seq(t, component_word()) {
        let i = choose|i: int| occurs_at(t, component_word(), i);
        assert(t.subrange(i, i + 9)[0] == t[i]);
    }
    if contains_seq(Seq::<char>::empty(), component_word()) {
        let i = choose|i: int| occurs_at(Seq::<char>::empty(), component_word(), i);
    }
}

/// What every line keeps: names stay distinct, no group and no current group is named
/// "People & Body", and no group name holds "Component".
proof fn lemma_after_lines_names(ls: Seq<Seq<char>>, k: Seq<char>)
    ensures
        names_distinct(after_lines(ls).0),
        after_lines(ls).1 != people_group(),
        !contains_seq(after_lines(ls).1, component_word()),
        has_group(after_lines(ls).0, k) ==> k != people_group() && !contains_seq(k, component_word()),
    decreases ls.len(),
{
    lemma_name_facts();
    if ls.len() > 0 {
        let st = after_lines(ls.drop_last());
        let line = ls.last();
        lemma_after_lines_names(ls.drop_last(), k);
        match header_group(line) {
            Some(g) => {
                let n = group_marker().len() as int;
                lemma_header_within(line, component_word());
            },
            None => match entry_code(line) {
                Some(code) => {
                    let m = with_item(st.0, st.1, code);
                    lemma_with_item(st.0, st.1, code, k);
                    if st.1 == smileys_group() {
                        lemma_with_item(m, st.1 + boring_suffix(), code, k);
                    }
                },
                None => {},
            },
        }
    }
}

/// The groups and the current group name after the lines `ls`, starting from `st`.
pub open spec fn after_lines_from(st: (GroupModel, Seq<char>), ls: Seq<Seq<char>>) -> (
    GroupModel,
    Seq<char>,
)
    decreases ls.len(),
{
    if ls.len() == 0 {
        st
    } else {
        after_line(after_lines_from(st, ls.drop_last()), ls.last())
    }
}

proof fn lemma_after_lines_append(ls: Seq<Seq<char>>, more: Seq<Seq<char>>)
    ensures
        after_lines(ls + more) == after_lines_from(after_lines(ls), more),
    decreases more.len(),
{
    if more.len() == 0 {
        assert(ls + more =~= ls);
    } else {
        lemma_after_lines_append(ls, more.drop_last());
        assert((ls + more).drop_last() =~= ls + more.drop_last());
        assert((ls + more).last() == more.last());
    }
}

/// Reading two files one after the other, the first empty or ending in `'\n'`: the second
/// goes on from the groups and the current group that the first left.
pub proof fn lemma_emoji_test_append(a: Seq<char>, b: Seq<char>)
    requires
        a.len() == 0 || a.last() == '\n',
    ensures
        emoji_test_groups(a + b) == after_lines_from(after_lines(lines(a)), lines(b)).0,
{
    lemma_lines_append(a, b);
    lemma_after_lines_append(lines(a), lines(b));
}

/// One more line leaves no group empty where none was.
proof fn lemma_after_line_no_empty(st: (GroupModel, Seq<char>), line: Seq<char>)
    requires
        no_empty_group(st.0),
    ensures
        no_empty_group(after_line(st, line).0),
{
    if header_group(line) is None {
        if let Some(code) = entry_code(line) {
            lemma_with_item_no_empty(st.0, st.1, code);
            if st.1 == smileys_group() {
                lemma_with_item_no_empty(with_item(st.0, st.1, code), st.1 + boring_suffix(), code);
            }
        }
    }
}

proof fn lemma_after_lines_no_empty(ls: Seq<Seq<char>>)
    ensures
        no_empty_group(after_lines(ls).0),
    decreases ls.len(),
{
    if ls.len() > 0 {
        lemma_after_lines_no_empty(ls.drop_last());
        lemma_after_line_no_empty(after_lines(ls.drop_last()), ls.last());
    }
}

/// No parsed group is empty: a group appears only with its first emoji, so every group that
/// is there holds at least one.
pub proof fn lemma_emoji_test_groups_nonempty(data: Seq<char>, k: Seq<char>)
    ensures
        no_empty_group(emoji_test_groups(data)),
        has_group(emoji_test_groups(data), k) ==> items_of(emoji_test_groups(data), k).len() > 0,
{
    lemma_after_lines_no_empty(lines(data));
    if has_group(emoji_test_groups(data), k) {
        lemma_no_empty_items_of(emoji_test_groups(data), k);
    }
}

/// Whether the groups of `x` are those of `m0` followed, name by name, by those of `y`, with
/// the same current group, both with distinct names.
pub open spec fn continues(m0: GroupModel, x: (GroupModel, Seq<char>), y: (GroupModel, Seq<char>)) -> bool {
    &&& x.1 == y.1
    &&& names_distinct(x.0)
    &&& names_distinct(y.0)
    &&& forall|k: Seq<char>| #[trigger] items_of(x.0, k) == items_of(m0, k) + items_of(y.0, k)
}

/// Adding one item to the same group on both sides keeps `continues`.
proof fn lemma_with_item_continues(
    m0: GroupModel,
    x: GroupModel,
    y: GroupModel,
    g: Seq<char>,
    code: Seq<char>,
)
    requires
        names_distinct(x),
        names_distinct(y),
        forall|k: Seq<char>| #[trigger] items_of(x, k) == items_of(m0, k) + items_of(y, k),
    ensures
        names_distinct(with_item(x, g, code)),
        names_distinct(with_item(y, g, code)),
        forall|k: Seq<char>| #[trigger] items_of(with_item(x, g, code), k) == items_of(m0, k)
            + items_of(with_item(y, g, code), k),
{
    lemma_with_item(x, g, code, g);
    lemma_with_item(y, g, code, g);
    assert forall|k: Seq<char>| #[trigger] items_of(with_item(x, g, code), k) == items_of(m0, k)
        + items_of(with_item(y, g, code), k) by {
        lemma_with_item(x, g, code, k);
        lemma_with_item(y, g, code, k);
        assert(items_of(x, k) == items_of(m0, k) + items_of(y, k));
        if k == g {
            assert((items_of(m0, k) + items_of(y, k)).push(code) =~= items_of(m0, k)
                + items_of(y, k).push(code));
        }
    }
}

/// One more line on both sides keeps `continues`.
proof fn lemma_after_line_continues(
    m0: GroupModel,
    x: (GroupModel, Seq<char>),
    y: (GroupModel, Seq<char>),
    line: Seq<char>,
)
    requires
        continues(m0, x, y),
    ensures
        continues(m0, after_line(x, line), after_line(y, line)),
{
    if header_group(line) is None {
        if let Some(code) = entry_code(line) {
            let g = x.1;
            lemma_with_item_continues(m0, x.0, y.0, g, code);
            if g == smileys_group() {
                lemma_with_item_continues(
                    m0,
                    with_item(x.0, g, code),
                    with_item(y.0, g, code),
                    g + boring_suffix(),
                    code,
                );
            }
        }
    }
}

proof fn lemma_after_lines_from_continues(
    m0: GroupModel,
    x: (GroupModel, Seq<char>),
    y: (GroupModel, Seq<char>),
    ls: Seq<Seq<char>>,
)
    requires
        continues(m0, x, y),
    ensures
        continues(m0, after_lines_from(x, ls), after_lines_from(y, ls)),
    decreases ls.len(),
{
    if ls.len() > 0 {
        lemma_after_lines_from_continues(m0, x, y, ls.drop_last());
        lemma_after_line_continues(
            m0,
            after_lines_from(x, ls.drop_last()),
            after_lines_from(y, ls.drop_last()),
            ls.last(),
        );
    }
}

/// Reading `l1` and then `l2` from `st` is reading `l1 + l2` from `st`.
proof fn lemma_after_lines_from_append(
    st: (GroupModel, Seq<char>),
    l1: Seq<Seq<char>>,
    l2: Seq<Seq<char>>,
)
    ensures
        after_lines_from(st, l1 + l2) == after_lines_from(after_lines_from(st, l1), l2),
    decreases l2.len(),
{
    if l2.len() == 0 {
        assert(l1 + l2 =~= l1);
    } else {
        lemma_after_lines_from_append(st, l1, l2.drop_last());
        assert((l1 + l2).drop_last() =~= l1 + l2.drop_last());
        assert((l1 + l2).last() == l2.last());
    }
}

/// Two files joined, the first empty or ending in `'\n'` and the second opening with a group
/// header: each group of the joined file lists the first file's emoji of that name and then
/// the second file's.
pub proof fn lemma_emoji_test_append_at_header(a: Seq<char>, b: Seq<char>, k: Seq<char>)
    requires
        a.len() == 0 || a.last() == '\n',
        lines(b).len() > 0,
        header_group(lines(b)[0]) is Some,
    ensures
        items_of(emoji_test_groups(a + b), k) == items_of(emoji_test_groups(a), k) + items_of(
            emoji_test_groups(b),
            k,
        ),
{
    let la = lines(a);
    let lb = lines(b);
    let first = lb.subrange(0, 1);
    let rest = lb.subrange(1, lb.len() as int);
    let empty: (GroupModel, Seq<char>) = (Seq::empty(), Seq::empty());
    lemma_emoji_test_append(a, b);
    lemma_after_lines_append(Seq::empty(), lb);
    assert(Seq::<Seq<char>>::empty() + lb =~= lb);
    assert(after_lines(Seq::<Seq<char>>::empty()) == empty);
    assert(lb =~= first + rest);
    let sa = after_lines(la);
    lemma_after_lines_names(la, k);
    lemma_after_lines_from_append(sa, first, rest);
    lemma_after_lines_from_append(empty, first, rest);
    assert(first.drop_last() =~= Seq::<Seq<char>>::empty());
    assert(first.last() == lb[0]);
    assert(first.len() == 1);
    assert(after_lines_from(sa, first.drop_last()) == sa);
    assert(after_lines_from(empty, first.drop_last()) == empty);
    let x = after_lines_from(sa, first);
    let y = after_lines_from(empty, first);
    assert(x == after_line(sa, lb[0]));
    assert(y == after_line(empty, lb[0]));
    assert forall|j: Seq<char>| #[trigger] items_of(x.0, j) == items_of(sa.0, j) + items_of(y.0, j) by {
        assert(!has_group(y.0, j));
        assert(items_of(sa.0, j) + Seq::<Seq<char>>::empty() =~= items_of(sa.0, j));
    }
    lemma_after_lines_from_continues(sa.0, x, y, rest);
}

/// Whether `x` is the code of one of the lines `ls` that is a fully-qualified entry: a line
/// that holds `"; fully-qualified"` and no `"skin tone"`, whose code points before its first
/// `';'` give `x`.
pub open spec fn qualified_code(ls: Seq<Seq<char>>, x: Seq<char>) -> bool {
    exists|i: int|
        0 <= i < ls.len() && contains_seq(#[trigger] ls[i], "; fully-qualified"@) && !contains_seq(
            ls[i],
            "skin tone"@,
        ) && split_once(ls[i], ';') is Some && x == code_string(split_once(ls[i], ';')->Some_0.0)
}

proof fn lemma_after_lines_qualified(ls: Seq<Seq<char>>)
    ensures
        all_items(after_lines(ls).0, |x: Seq<char>| qualified_code(ls, x)),
    decreases ls.len(),
{
    let p = |x: Seq<char>| qualified_code(ls, x);
    if ls.len() > 0 {
        let prev = ls.drop_last();
        let q = |x: Seq<char>| qualified_code(prev, x);
        lemma_after_lines_qualified(prev);
        let st = after_lines(prev);
        assert forall|x: Seq<char>| #[trigger] q(x) implies p(x) by {
            let i = choose|i: int|
                0 <= i < prev.len() && contains_seq(#[trigger] prev[i], "; fully-qualified"@)
                    && !contains_seq(prev[i], "skin tone"@) && split_once(prev[i], ';') is Some
                    && x == code_string(split_once(prev[i], ';')->Some_0.0);
            assert(ls[i] == prev[i]);
        }
        assert(all_items(st.0, p)) by {
            assert forall|i: int, j: int| 0 <= i < st.0.len() && 0 <= j < st.0[i].1.len() implies p(
                #[trigger] st.0[i].1[j],
            ) by {
                assert(q(st.0[i].1[j]));
            }
        }
        let line = ls.last();
        if header_group(line) is None {
            if let Some(code) = entry_code(line) {
                assert(ls[ls.len() - 1] == line);
                assert(p(code));
                lemma_with_item_all(st.0, st.1, code, p);
                if st.1 == smileys_group() {
                    lemma_with_item_all(with_item(st.0, st.1, code), st.1 + boring_suffix(), code, p);
                }
            }
        }
    }
}

/// Every emoji of every parsed group is the code of a fully-qualified entry line of `data`
/// (one that holds `"; fully-qualified"` and no `"skin tone"`): minimally-qualified,
/// unqualified and component lines give no emoji.
pub proof fn lemma_emoji_test_items_are_qualified(data: Seq<char>, k: Seq<char>)
    ensures
        forall|j: int|
            0 <= j < items_of(emoji_test_groups(data), k).len() ==> qualified_code(
                lines(data),
                #[trigger] items_of(emoji_test_groups(data), k)[j],
            ),
{
    lemma_after_lines_qualified(lines(data));
    lemma_all_items_of(emoji_test_groups(data), |x: Seq<char>| qualified_code(lines(data), x), k);
}

/// A line that opens no group and is not a fully-qualified entry adds nothing: appending it
/// (as a line of its own) to a text that is empty or ends in `'\n'` leaves the groups as
/// they were. This covers minimally-qualified, unqualified and component entries and comment
/// lines.
pub proof fn lemma_unqualified_line_adds_nothing(a: Seq<char>, l: Seq<char>)
    requires
        a.len() == 0 || a.last() == '\n',
        forall|j: int| 0 <= j < l.len() ==> l[j] != '\n',
        !contains_seq(l, "; fully-qualified"@),
        !"# group: "@.is_prefix_of(l),
    ensures
        emoji_test_groups(a + (l + seq!['\n'])) == emoji_test_groups(a),
{
    let b = l + seq!['\n'];
    lemma_emoji_test_append(a, b);
    assert forall|j: int| 0 <= j < l.len() implies b[j] != '\n' by {
        assert(b[j] == l[j]);
    }
    lemma_first_index_of_is(b, '\n', l.len() as int);
    assert(b.subrange(0, l.len() as int) =~= l);
    assert(b.subrange(l.len() as int + 1, b.len() as int) =~= Seq::<char>::empty());
    assert(lines(Seq::<char>::empty()) == Seq::<Seq<char>>::empty());
    let x = strip_cr(l);
    assert(lines(b) =~= seq![x]);
    let n = if l.len() > 0 && l.last() == '\r' {
        l.len() - 1
    } else {
        l.len() as int
    };
    assert(x =~= l.subrange(0, n));
    assert(!contains_seq(x, fully_qualified_marker())) by {
        if contains_seq(x, fully_qualified_marker()) {
            lemma_contains_subrange(l, fully_qualified_marker(), 0, n);
        }
    }
    assert(!group_marker().is_prefix_of(x)) by {
        if group_marker().is_prefix_of(x) {
            assert forall|j: int| 0 <= j < group_marker().len() implies group_marker()[j] == l[j] by {
                assert(x[j] == l[j]);
            }
        }
    }
    let st = after_lines(lines(a));
    assert(seq![x].drop_last() =~= Seq::<Seq<char>>::empty());
    assert(after_lines_from(st, seq![x].drop_last()) == st);
    assert(after_lines_from(st, seq![x]) == after_line(st, x));
}

/// A file saved with Windows line endings (`"\r\n"`) parses to the same groups, where the
/// file holds no `'\r'` of its own.
pub proof fn lemma_emoji_test_crlf(data: Seq<char>)
    requires
        forall|k: int| 0 <= k < data.len() ==> data[k] != '\r',
    ensures
        emoji_test_groups(crlf(data)) == emoji_test_groups(data),
{
    lemma_lines_crlf(data);
}

/// No group is named "People & Body": its entries are merged into "Smileys & Emotion". No
/// group name holds "Component". Group names are distinct.
pub proof fn lemma_emoji_test_names(data: Seq<char>, k: Seq<char>)
    ensures
        names_distinct(emoji_test_groups(data)),
        !has_group(emoji_test_groups(data), people_group()),
        has_group(emoji_test_groups(data), k) ==> !contains_seq(k, component_word()),
{
    lemma_after_lines_names(lines(data), k);
    lemma_after_lines_names(lines(data), people_group());
}

/// The twin group's items are those of "Smileys & Emotion", and the current group is not the
/// twin, where no header opens the twin.
proof fn lemma_after_lines_twin(ls: Seq<Seq<char>>)
    requires
        forall|i: int| 0 <= i < ls.len() ==> header_group(#[trigger] ls[i]) != Some(
            smileys_group() + boring_suffix(),
        ),
    ensures
        items_of(after_lines(ls).0, smileys_group() + boring_suffix()) == items_of(
            after_lines(ls).0,
            smileys_group(),
        ),
        after_lines(ls).1 != smileys_group() + boring_suffix(),
    decreases ls.len(),
{
    lemma_name_facts();
    if ls.len() > 0 {
        let rest = ls.drop_last();
        assert forall|i: int| 0 <= i < rest.len() implies header_group(#[trigger] rest[i]) != Some(
            smileys_group() + boring_suffix(),
        ) by {
            assert(rest[i] == ls[i]);
        }
        lemma_after_lines_twin(rest);
        let st = after_lines(rest);
        let line = ls.last();
        let twin = smileys_group() + boring_suffix();
        lemma_after_lines_names(rest, twin);
        assert(header_group(ls[ls.len() - 1]) != Some(twin));
        match header_group(line) {
            Some(g) => {},
            None => match entry_code(line) {
                Some(code) => {
                    let m = with_item(st.0, st.1, code);
                    lemma_with_item(st.0, st.1, code, twin);
                    lemma_with_item(st.0, st.1, code, smileys_group());
                    if st.1 == smileys_group() {
                        lemma_with_item(m, twin, code, twin);
                        lemma_with_item(m, twin, code, smileys_group());
                    }
                },
                None => {},
            },
        }
    }
}

/// "Smileys & Emotion - boring" is there exactly where "Smileys & Emotion" is, and lists
/// exactly its entries, provided no header line itself opens a group of that name.
pub proof fn lemma_boring_twin(data: Seq<char>)
    requires
        forall|i: int| 0 <= i < lines(data).len() ==> header_group(#[trigger] lines(data)[i]) != Some(
            smileys_group() + boring_suffix(),
        ),
    ensures
        items_of(emoji_test_groups(data), smileys_group() + boring_suffix()) == items_of(
            emoji_test_groups(data),
            smileys_group(),
        ),
        has_group(emoji_test_groups(data), smileys_group() + boring_suffix()) <==> has_group(
            emoji_test_groups(data),
            smileys_group(),
        ),
{
    lemma_after_lines_twin(lines(data));
    lemma_emoji_test_groups_nonempty(data, smileys_group());
    lemma_emoji_test_groups_nonempty(data, smileys_group() + boring_suffix());
}

/// The group that the header lines among `ls[0..i]` leave in effect: the group of the last
/// of them, or the empty name where there is none.
pub open spec fn group_in_effect(ls: Seq<Seq<char>>, i: int) -> Seq<char>
    decreases i,
{
    if i <= 0 {
        Seq::empty()
    } else {
        match header_group(ls[i - 1]) {
            Some(g) => g,
            None => group_in_effect(ls, i - 1),
        }
    }
}

/// The emoji that line `i` of `ls` gives the group named `g`: an entry line gives its code to
/// the group in effect, and, where that is "Smileys & Emotion", to its twin as well.
pub open spec fn entry_for_group(ls: Seq<Seq<char>>, i: int, g: Seq<char>) -> Option<Seq<char>> {
    if header_group(ls[i]) is None && entry_code(ls[i]) is Some {
        let cur = group_in_effect(ls, i);
        if cur == g || (cur == smileys_group() && g == smileys_group() + boring_suffix()) {
            entry_code(ls[i])
        } else {
            None
        }
    } else {
        None
    }
}

/// The emoji that the lines `ls` give the group named `g`, in order.
pub open spec fn entries_under(ls: Seq<Seq<char>>, g: Seq<char>) -> Seq<Seq<char>>
    decreases ls.len(),
{
    if ls.len() == 0 {
        Seq::empty()
    } else {
        let prev = entries_under(ls.drop_last(), g);
        match entry_for_group(ls, ls.len() - 1, g) {
            Some(c) => prev.push(c),
            None => prev,
        }
    }
}

proof fn lemma_group_in_effect_prefix(ls: Seq<Seq<char>>, i: int)
    requires
        0 <= i < ls.len(),
    ensures
        group_in_effect(ls.drop_last(), i) == group_in_effect(ls, i),
    decreases i,
{
    if i > 0 {
        assert(ls.drop_last()[i - 1] == ls[i - 1]);
        lemma_group_in_effect_prefix(ls, i - 1);
    }
}

/// The fold's current group is the group in effect, and each group's items are the emoji
/// that the lines give it.
proof fn lemma_after_lines_entries(ls: Seq<Seq<char>>, g: Seq<char>)
    ensures
        after_lines(ls).1 == group_in_effect(ls, ls.len() as int),
        items_of(after_lines(ls).0, g) == entries_under(ls, g),
    decreases ls.len(),
{
    lemma_name_facts();
    if ls.len() > 0 {
        let rest = ls.drop_last();
        let n = ls.len() - 1;
        lemma_after_lines_entries(rest, g);
        lemma_after_lines_names(rest, g);
        lemma_group_in_effect_prefix(ls, n);
        assert(ls[n] == ls.last());
        let st = after_lines(rest);
        let line = ls.last();
        match header_group(line) {
            Some(h) => {},
            None => match entry_code(line) {
                Some(code) => {
                    let twin = smileys_group() + boring_suffix();
                    lemma_with_item(st.0, st.1, code, g);
                    if st.1 == smileys_group() {
                        let m = with_item(st.0, st.1, code);
                        lemma_with_item(m, twin, code, g);
                    }
                },
                None => {},
            },
        }
    }
}

/// The items of each group are, in order, the codes of the entry lines that come under a
/// header for that group; "Smileys & Emotion - boring" also gets those of
/// "Smileys & Emotion".
pub proof fn lemma_groups_follow_headers(data: Seq<char>, g: Seq<char>)
    ensures
        items_of(emoji_test_groups(data), g) == entries_under(lines(data), g),
{
    lemma_after_lines_entries(lines(data), g);
}

} // verus!
