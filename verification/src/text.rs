//! Character-level text utilities with the meaning of the `str` operations they mirror.
use vstd::prelude::*;

verus! {

/// The Unicode `White_Space` property, which `char::is_whitespace` tests.
pub open spec fn is_white_space(c: char) -> bool {
    ||| ('\u{9}' <= c && c <= '\u{d}')
    ||| c == ' '
    ||| c == '\u{85}'
    ||| c == '\u{a0}'
    ||| c == '\u{1680}'
    ||| ('\u{2000}' <= c && c <= '\u{200a}')
    ||| c == '\u{2028}'
    ||| c == '\u{2029}'
    ||| c == '\u{202f}'
    ||| c == '\u{205f}'
    ||| c == '\u{3000}'
}

pub fn is_white_space_char(c: char) -> (r: bool)
    ensures
        r == is_white_space(c),
{
    ('\u{9}' <= c && c <= '\u{d}') || c == ' ' || c == '\u{85}' || c == '\u{a0}' || c == '\u{1680}'
        || ('\u{2000}' <= c && c <= '\u{200a}') || c == '\u{2028}' || c == '\u{2029}'
        || c == '\u{202f}' || c == '\u{205f}' || c == '\u{3000}'
}

/// The characters of a string slice, in order.
pub fn chars_of(s: &str) -> (r: Vec<char>)
    ensures
        r@ == s@,
{
    let mut r: Vec<char> = Vec::new();
    for c in it: s.chars()
        invariant
            r@ == it.history(),
            it.seq() == s@,
    {
        r.push(c);
    }
    r
}

} // verus!

verus! {

/// `s` with its leading white space removed (`str::trim_start`).
pub open spec fn trim_start(s: Seq<char>) -> Seq<char>
    decreases s.len(),
{
    if s.len() > 0 && is_white_space(s[0]) {
        trim_start(s.drop_first())
    } else {
        s
    }
}

/// `s` with its trailing white space removed (`str::trim_end`).
pub open spec fn trim_end(s: Seq<char>) -> Seq<char>
    decreases s.len(),
{
    if s.len() > 0 && is_white_space(s.last()) {
        trim_end(s.drop_last())
    } else {
        s
    }
}

/// `s` with white space removed at both ends (`str::trim`).
pub open spec fn trim(s: Seq<char>) -> Seq<char> {
    trim_end(trim_start(s))
}

/// `needle` occurs in `s` starting at index `i`.
pub open spec fn occurs_at(s: Seq<char>, needle: Seq<char>, i: int) -> bool {
    0 <= i && i + needle.len() <= s.len() && s.subrange(i, i + needle.len()) == needle
}

/// `needle` occurs somewhere in `s` (`str::contains`).
pub open spec fn contains_seq(s: Seq<char>, needle: Seq<char>) -> bool {
    exists|i: int| occurs_at(s, needle, i)
}

proof fn lemma_trim_start_skip(s: Seq<char>, i: int)
    requires
        0 <= i < s.len(),
        is_white_space(s[i]),
    ensures
        trim_start(s.subrange(i, s.len() as int)) == trim_start(s.subrange(i + 1, s.len() as int)),
{
    assert(s.subrange(i, s.len() as int).drop_first() =~= s.subrange(i + 1, s.len() as int));
}

proof fn lemma_trim_end_take(t: Seq<char>, j: int)
    requires
        0 < j <= t.len(),
        is_white_space(t[j - 1]),
    ensures
        trim_end(t.subrange(0, j)) == trim_end(t.subrange(0, j - 1)),
{
    assert(t.subrange(0, j).drop_last() =~= t.subrange(0, j - 1));
}

/// The characters of `s` from index `from` up to, not including, `to`.
pub fn copy_range(s: &Vec<char>, from: usize, to: usize) -> (r: Vec<char>)
    requires
        from <= to <= s.len(),
    ensures
        r@ == s@.subrange(from as int, to as int),
{
    let mut r: Vec<char> = Vec::new();
    let mut k = from;
    while k < to
        invariant
            from <= k <= to <= s.len(),
            r@ == s@.subrange(from as int, k as int),
        decreases to - k,
    {
        r.push(s[k]);
        k = k + 1;
        assert(r@ =~= s@.subrange(from as int, k as int));
    }
    r
}

/// `str::trim` on a character sequence.
pub fn trim_chars(s: &Vec<char>) -> (r: Vec<char>)
    ensures
        r@ == trim(s@),
{
    let n = s.len();
    let mut i: usize = 0;
    assert(s@.subrange(0, n as int) =~= s@);
    while i < n && is_white_space_char(s[i])
        invariant
            i <= n == s.len(),
            trim_start(s@) == trim_start(s@.subrange(i as int, n as int)),
        decreases n - i,
    {
        proof { lemma_trim_start_skip(s@, i as int); }
        i = i + 1;
    }
    let ghost t = s@.subrange(i as int, n as int);
    assert(trim_start(s@) == t) by {
        if i < n {
            assert(t[0] == s@[i as int]);
        }
    }
    let mut j: usize = n;
    assert(t.subrange(0, (j - i) as int) =~= t);
    while j > i && is_white_space_char(s[j - 1])
        invariant
            i <= j <= n == s.len(),
            t == s@.subrange(i as int, n as int),
            trim_end(t) == trim_end(t.subrange(0, (j - i) as int)),
        decreases j,
    {
        proof { lemma_trim_end_take(t, (j - i) as int); }
        j = j - 1;
    }
    assert(t.subrange(0, (j - i) as int) =~= s@.subrange(i as int, j as int));
    copy_range(s, i, j)
}

/// Whether `prefix` is a prefix of `s` (`str::starts_with`).
pub fn starts_with_chars(s: &Vec<char>, prefix: &Vec<char>) -> (r: bool)
    ensures
        r == prefix@.is_prefix_of(s@),
{
    if prefix.len() > s.len() {
        return false;
    }
    let mut k: usize = 0;
    while k < prefix.len()
        invariant
            prefix.len() <= s.len(),
            k <= prefix.len(),
            forall|m: int| 0 <= m < k ==> s@[m] == prefix@[m],
        decreases prefix.len() - k,
    {
        if s[k] != prefix[k] {
            assert(s@.subrange(0, prefix@.len() as int)[k as int] != prefix@[k as int]);
            return false;
        }
        k = k + 1;
    }
    assert(prefix@ =~= s@.subrange(0, prefix@.len() as int));
    true
}

/// Whether `needle` occurs in `s` at index `i`.
fn occurs_at_exec(s: &Vec<char>, needle: &Vec<char>, i: usize) -> (r: bool)
    requires
        i + needle.len() <= s.len(),
    ensures
        r == occurs_at(s@, needle@, i as int),
{
    let mut k: usize = 0;
    while k < needle.len()
        invariant
            i + needle.len() <= s.len(),
            k <= needle.len(),
            forall|m: int| 0 <= m < k ==> s@[i + m] == needle@[m],
        decreases needle.len() - k,
    {
        if s[i + k] != needle[k] {
            assert(s@.subrange(i as int, i + needle@.len())[k as int] != needle@[k as int]);
            return false;
        }
        k = k + 1;
    }
    assert(needle@ =~= s@.subrange(i as int, i + needle@.len()));
    true
}

/// Whether `needle` occurs in `s` (`str::contains`).
pub fn contains_chars(s: &Vec<char>, needle: &Vec<char>) -> (r: bool)
    ensures
        r == contains_seq(s@, needle@),
{
    if needle.len() > s.len() {
        return false;
    }
    let mut i: usize = 0;
    let last = s.len() - needle.len();
    while i <= last
        invariant
            needle.len() <= s.len(),
            last == s.len() - needle.len(),
            i <= last,
            forall|m: int| 0 <= m < i ==> !occurs_at(s@, needle@, m),
        ensures
            forall|m: int| 0 <= m <= last ==> !occurs_at(s@, needle@, m),
        decreases last - i,
    {
        if occurs_at_exec(s, needle, i) {
            return true;
        }
        if i == last {
            assert(forall|m: int| 0 <= m <= last ==> !occurs_at(s@, needle@, m));
            break;
        }
        i = i + 1;
    }
    false
}

/// Index of the first `c` in `s`, or -1 where `s` holds none.
pub open spec fn first_index_of(s: Seq<char>, c: char) -> int
    decreases s.len(),
{
    if s.len() == 0 {
        -1
    } else if s[0] == c {
        0
    } else {
        let r = first_index_of(s.drop_first(), c);
        if r < 0 {
            -1
        } else {
            r + 1
        }
    }
}

pub proof fn lemma_first_index_of_bound(s: Seq<char>, c: char)
    ensures
        -1 <= first_index_of(s, c) < s.len(),
        first_index_of(s, c) >= 0 ==> s[first_index_of(s, c)] == c,
    decreases s.len(),
{
    if s.len() > 0 && s[0] != c {
        lemma_first_index_of_bound(s.drop_first(), c);
    }
}

/// No `c` comes before the first one (nor anywhere, where there is none).
pub proof fn lemma_first_index_of_first(s: Seq<char>, c: char)
    ensures
        forall|j: int|
            0 <= j < s.len() && (first_index_of(s, c) < 0 || j < first_index_of(s, c)) ==> s[j] != c,
    decreases s.len(),
{
    if s.len() > 0 && s[0] != c {
        lemma_first_index_of_first(s.drop_first(), c);
        assert forall|j: int|
            0 <= j < s.len() && (first_index_of(s, c) < 0 || j < first_index_of(s, c)) implies s[j] != c by {
            if j > 0 {
                assert(s[j] == s.drop_first()[j - 1]);
            }
        }
    }
}

/// Where `i` is the first position of `c` in `s` (or `s.len()` where none is), it is what
/// `first_index_of` gives (or -1).
pub proof fn lemma_first_index_of_is(s: Seq<char>, c: char, i: int)
    requires
        0 <= i <= s.len(),
        forall|j: int| 0 <= j < i ==> s[j] != c,
        i == s.len() || s[i] == c,
    ensures
        first_index_of(s, c) == if i < s.len() { i } else { -1 },
    decreases i,
{
    if i > 0 {
        lemma_first_index_of_is(s.drop_first(), c, i - 1);
    }
}

/// `str::split_once` with a character delimiter: the text before and after the first `c`.
pub open spec fn split_once(s: Seq<char>, c: char) -> Option<(Seq<char>, Seq<char>)> {
    let i = first_index_of(s, c);
    if i < 0 {
        None
    } else {
        Some((s.subrange(0, i), s.subrange(i + 1, s.len() as int)))
    }
}

/// A line without the `'\r'` of a `"\r\n"` ending.
pub open spec fn strip_cr(l: Seq<char>) -> Seq<char> {
    if l.len() > 0 && l.last() == '\r' {
        l.drop_last()
    } else {
        l
    }
}

/// The lines of `s` as `str::lines` yields them: split at `'\n'`, a `'\r'` before a
/// `'\n'` dropped, no empty line after a final `'\n'`.
pub open spec fn lines(s: Seq<char>) -> Seq<Seq<char>>
    decreases s.len(),
{
    if s.len() == 0 {
        seq![]
    } else {
        let i = first_index_of(s, '\n');
        if i < 0 {
            seq![s]
        } else {
            proof {
                lemma_first_index_of_bound(s, '\n');
            }
            seq![strip_cr(s.subrange(0, i))] + lines(s.subrange(i + 1, s.len() as int))
        }
    }
}

/// Number of non-white-space characters that `s` starts with.
pub open spec fn word_len(s: Seq<char>) -> nat
    decreases s.len(),
{
    if s.len() == 0 || is_white_space(s[0]) {
        0
    } else {
        1 + word_len(s.drop_first())
    }
}

pub proof fn lemma_word_len_bound(s: Seq<char>)
    ensures
        word_len(s) <= s.len(),
    decreases s.len(),
{
    if s.len() > 0 && !is_white_space(s[0]) {
        lemma_word_len_bound(s.drop_first());
    }
}

proof fn lemma_word_len_is(s: Seq<char>, k: int)
    requires
        0 <= k <= s.len(),
        forall|m: int| 0 <= m < k ==> !is_white_space(s[m]),
        k == s.len() || is_white_space(s[k]),
    ensures
        word_len(s) == k,
    decreases k,
{
    if k > 0 {
        lemma_word_len_is(s.drop_first(), k - 1);
    }
}

/// The white-space separated words of `s` (`str::split_whitespace`).
pub open spec fn split_whitespace(s: Seq<char>) -> Seq<Seq<char>>
    decreases s.len(),
{
    if s.len() == 0 {
        seq![]
    } else if is_white_space(s[0]) {
        split_whitespace(s.drop_first())
    } else {
        proof {
            lemma_word_len_bound(s);
        }
        let n = word_len(s);
        seq![s.take(n as int)] + split_whitespace(s.skip(n as int))
    }
}

/// `parts` joined with `sep` between each two of them (`[String]::join`).
pub open spec fn join(parts: Seq<Seq<char>>, sep: Seq<char>) -> Seq<char>
    decreases parts.len(),
{
    if parts.len() == 0 {
        seq![]
    } else if parts.len() == 1 {
        parts[0]
    } else {
        join(parts.drop_last(), sep) + sep + parts.last()
    }
}

/// The character sequences that a sequence of character vectors holds.
pub open spec fn char_views(v: Seq<Vec<char>>) -> Seq<Seq<char>> {
    v.map_values(|x: Vec<char>| x@)
}

/// The character sequences that a sequence of strings holds.
pub open spec fn string_views(v: Seq<String>) -> Seq<Seq<char>> {
    v.map_values(|x: String| x@)
}

/// `str::split_once` with a character delimiter.
pub fn split_once_chars(s: &Vec<char>, c: char) -> (r: Option<(Vec<char>, Vec<char>)>)
    ensures
        match r {
            None => split_once(s@, c) is None,
            Some((a, b)) => split_once(s@, c) == Some((a@, b@)),
        },
{
    let n = s.len();
    let mut i: usize = 0;
    while i < n && s[i] != c
        invariant
            i <= n == s.len(),
            forall|j: int| 0 <= j < i ==> s@[j] != c,
        decreases n - i,
    {
        i = i + 1;
    }
    proof {
        lemma_first_index_of_is(s@, c, i as int);
    }
    if i == n {
        None
    } else {
        Some((copy_range(s, 0, i), copy_range(s, i + 1, n)))
    }
}

fn strip_cr_chars(l: Vec<char>) -> (r: Vec<char>)
    ensures
        r@ == strip_cr(l@),
{
    let mut l = l;
    if l.len() > 0 && l[l.len() - 1] == '\r' {
        l.pop();
    }
    l
}

/// The lines of a text, as `str::lines` yields them.
pub fn lines_of(s: &Vec<char>) -> (r: Vec<Vec<char>>)
    ensures
        char_views(r@) == lines(s@),
{
    let n = s.len();
    let mut out: Vec<Vec<char>> = Vec::new();
    let mut start: usize = 0;
    let mut i: usize = 0;
    assert(s@.subrange(0, n as int) =~= s@);
    while i < n
        invariant
            start <= i <= n == s.len(),
            forall|j: int| start <= j < i ==> s@[j] != '\n',
            lines(s@) == char_views(out@) + lines(s@.subrange(start as int, n as int)),
        decreases n - i,
    {
        if s[i] == '\n' {
            let ghost t = s@.subrange(start as int, n as int);
            proof {
                lemma_first_index_of_is(t, '\n', (i - start) as int);
                assert(t.subrange(0, (i - start) as int) =~= s@.subrange(start as int, i as int));
                assert(t.subrange((i - start) + 1, t.len() as int) =~= s@.subrange(
                    i + 1,
                    n as int,
                ));
            }
            let line = strip_cr_chars(copy_range(s, start, i));
            let ghost before = out@;
            out.push(line);
            proof {
                assert(char_views(out@) =~= char_views(before) + seq![line@]);
            }
            start = i + 1;
        }
        i = i + 1;
    }
    if start < n {
        let ghost t = s@.subrange(start as int, n as int);
        proof {
            lemma_first_index_of_is(t, '\n', t.len() as int);
        }
        let last = copy_range(s, start, n);
        let ghost before = out@;
        out.push(last);
        proof {
            assert(char_views(out@) =~= char_views(before) + seq![last@]);
        }
    } else {
        assert(char_views(out@) =~= char_views(out@) + lines(s@.subrange(start as int, n as int)));
    }
    out
}

/// The white-space separated words of a text (`str::split_whitespace`).
pub fn split_whitespace_chars(s: &Vec<char>) -> (r: Vec<Vec<char>>)
    ensures
        char_views(r@) == split_whitespace(s@),
{
    let n = s.len();
    let mut out: Vec<Vec<char>> = Vec::new();
    let mut i: usize = 0;
    assert(s@.subrange(0, n as int) =~= s@);
    while i < n
        invariant
            i <= n == s.len(),
            split_whitespace(s@) == char_views(out@) + split_whitespace(
                s@.subrange(i as int, n as int),
            ),
        decreases n - i,
    {
        let ghost t = s@.subrange(i as int, n as int);
        if is_white_space_char(s[i]) {
            assert(t.drop_first() =~= s@.subrange(i + 1, n as int));
            i = i + 1;
        } else {
            let mut j = i + 1;
            while j < n && !is_white_space_char(s[j])
                invariant
                    i < j <= n == s.len(),
                    forall|m: int| i <= m < j ==> !is_white_space(s@[m]),
                decreases n - j,
            {
                j = j + 1;
            }
            proof {
                lemma_word_len_is(t, (j - i) as int);
                assert(t.take((j - i) as int) =~= s@.subrange(i as int, j as int));
                assert(t.skip((j - i) as int) =~= s@.subrange(j as int, n as int));
            }
            let word = copy_range(s, i, j);
            let ghost before = out@;
            out.push(word);
            proof {
                assert(char_views(out@) =~= char_views(before) + seq![word@]);
            }
            i = j;
        }
    }
    assert(char_views(out@) =~= char_views(out@) + split_whitespace(s@.subrange(i as int, n as int)));
    out
}

/// `parts` joined with `sep` between each two of them.
pub fn join_chars(parts: &Vec<Vec<char>>, sep: &Vec<char>) -> (r: Vec<char>)
    ensures
        r@ == join(char_views(parts@), sep@),
{
    let mut r: Vec<char> = Vec::new();
    let mut i: usize = 0;
    while i < parts.len()
        invariant
            i <= parts.len(),
            r@ == join(char_views(parts@).take(i as int), sep@),
        decreases parts.len() - i,
    {
        let ghost ps = char_views(parts@);
        if i > 0 {
            let mut k: usize = 0;
            let ghost r0 = r@;
            while k < sep.len()
                invariant
                    k <= sep.len(),
                    r@ == r0 + sep@.take(k as int),
                decreases sep.len() - k,
            {
                r.push(sep[k]);
                k = k + 1;
                assert(r@ =~= r0 + sep@.take(k as int));
            }
        }
        let ghost r1 = r@;
        let mut k: usize = 0;
        while k < parts[i].len()
            invariant
                i < parts.len(),
                k <= parts[i as int].len(),
                r@ == r1 + parts[i as int]@.take(k as int),
            decreases parts[i as int].len() - k,
        {
            r.push(parts[i][k]);
            k = k + 1;
            assert(r@ =~= r1 + parts[i as int]@.take(k as int));
        }
        proof {
            assert(ps.take(i + 1).drop_last() =~= ps.take(i as int));
            assert(parts[i as int]@.take(k as int) =~= parts[i as int]@);
            if i == 0 {
                assert(r@ =~= ps.take(1)[0]);
            } else {
                assert(r@ =~= join(ps.take(i as int), sep@) + sep@ + ps.take(i + 1).last());
            }
        }
        i = i + 1;
    }
    assert(char_views(parts@).take(parts.len() as int) =~= char_views(parts@));
    r
}

/// What `str::to_uppercase` returns for `s`.
pub uninterp spec fn upper_case(s: Seq<char>) -> Seq<char>;

/// Whether every character of `s` is ASCII.
pub open spec fn is_ascii_text(s: Seq<char>) -> bool {
    forall|i: int| 0 <= i < s.len() ==> (s[i] as u32) < 128
}

/// The upper-case form of an ASCII character: `a`-`z` become `A`-`Z`, the rest stay.
pub open spec fn ascii_upper(c: char) -> char {
    if 'a' <= c && c <= 'z' {
        ((c as int) - 32) as char
    } else {
        c
    }
}

/// Calls `str::to_uppercase`. Its result is a function of the characters of `s`, named
/// `upper_case`; the Unicode case tables are not restated. For ASCII text the documentation
/// of `to_uppercase` and `to_ascii_uppercase` gives it outright: `a`-`z` become `A`-`Z` and
/// every other character stays, one for one.
#[verifier::external_body]
fn to_upper_case(s: &str) -> (r: String)
    ensures
        r@ == upper_case(s@),
        is_ascii_text(s@) ==> r@ == s@.map_values(|c: char| ascii_upper(c)),
{
    s.to_uppercase()
}

/// Calls `String::push`: the result is `s` with `c` appended, as its documentation says.
#[verifier::external_body]
fn push_char(s: &mut String, c: char)
    ensures
        final(s)@ == old(s)@.push(c),
{
    s.push(c);
}

/// The string that holds the characters of `v`.
pub fn string_of(v: &Vec<char>) -> (r: String)
    ensures
        r@ == v@,
{
    let mut r = String::new();
    let mut k: usize = 0;
    while k < v.len()
        invariant
            k <= v.len(),
            r@ == v@.take(k as int),
        decreases v.len() - k,
    {
        push_char(&mut r, v[k]);
        k = k + 1;
        assert(r@ =~= v@.take(k as int));
    }
    assert(v@.take(v.len() as int) =~= v@);
    r
}

/// The upper-case form of a character sequence, as `str::to_uppercase` gives it.
pub fn upper_case_chars(v: &Vec<char>) -> (r: Vec<char>)
    ensures
        r@ == upper_case(v@),
        is_ascii_text(v@) ==> r@ == v@.map_values(|c: char| ascii_upper(c)),
{
    let s = string_of(v);
    let u = to_upper_case(s.as_str());
    chars_of(u.as_str())
}

/// Whether two character sequences are equal.
pub fn chars_eq(a: &Vec<char>, b: &Vec<char>) -> (r: bool)
    ensures
        r == (a@ == b@),
{
    if a.len() != b.len() {
        return false;
    }
    let mut k: usize = 0;
    while k < a.len()
        invariant
            a.len() == b.len(),
            k <= a.len(),
            forall|m: int| 0 <= m < k ==> a@[m] == b@[m],
        decreases a.len() - k,
    {
        if a[k] != b[k] {
            return false;
        }
        k = k + 1;
    }
    assert(a@ =~= b@);
    true
}

/// `a` followed by `b`.
pub fn concat_chars(a: &Vec<char>, b: &Vec<char>) -> (r: Vec<char>)
    ensures
        r@ == a@ + b@,
{
    let mut r = copy_range(a, 0, a.len());
    let mut k: usize = 0;
    let ghost r0 = r@;
    while k < b.len()
        invariant
            k <= b.len(),
            r@ == r0 + b@.take(k as int),
        decreases b.len() - k,
    {
        r.push(b[k]);
        k = k + 1;
        assert(r@ =~= r0 + b@.take(k as int));
    }
    assert(b@.take(b.len() as int) =~= b@);
    assert(a@.subrange(0, a.len() as int) =~= a@);
    r
}

/// Appends the characters of `b` to `r`.
pub fn push_all(r: &mut Vec<char>, b: &Vec<char>)
    ensures
        final(r)@ == old(r)@ + b@,
{
    let ghost r0 = r@;
    let mut k: usize = 0;
    while k < b.len()
        invariant
            k <= b.len(),
            r@ == r0 + b@.take(k as int),
        decreases b.len() - k,
    {
        r.push(b[k]);
        k = k + 1;
        assert(r@ =~= r0 + b@.take(k as int));
    }
    assert(b@.take(b.len() as int) =~= b@);
}

/// The number of lines in `s`, counted as `str::lines` yields them.
pub fn line_count(s: &str) -> (r: usize)
    ensures
        r == lines(s@).len(),
{
    let cs = chars_of(s);
    let ls = lines_of(&cs);
    ls.len()
}

/// `s` with each non-overlapping occurrence of `from`, taken from left to right, replaced
/// by `to` (`str::replace`); an empty `from` matches before every character and at the end.
pub open spec fn replace_all(s: Seq<char>, from: Seq<char>, to: Seq<char>) -> Seq<char>
    decreases s.len(),
{
    if from.len() == 0 {
        if s.len() == 0 {
            to
        } else {
            to + seq![s[0]] + replace_all(s.drop_first(), from, to)
        }
    } else if from.is_prefix_of(s) {
        to + replace_all(s.skip(from.len() as int), from, to)
    } else if s.len() == 0 {
        seq![]
    } else {
        seq![s[0]] + replace_all(s.drop_first(), from, to)
    }
}

/// `str::replace`: each non-overlapping occurrence of `from`, from left to right, replaced
/// by `to`.
pub fn replace_all_chars(s: &Vec<char>, from: &Vec<char>, to: &Vec<char>) -> (r: Vec<char>)
    ensures
        r@ == replace_all(s@, from@, to@),
{
    let n = s.len();
    let mut out: Vec<char> = Vec::new();
    let mut i: usize = 0;
    assert(s@.subrange(0, n as int) =~= s@);
    while i < n
        invariant
            i <= n == s.len(),
            replace_all(s@, from@, to@) == out@ + replace_all(s@.subrange(i as int, n as int), from@, to@),
        decreases n - i,
    {
        let ghost t = s@.subrange(i as int, n as int);
        if from.len() == 0 {
            let ghost before = out@;
            push_all(&mut out, to);
            out.push(s[i]);
            assert(t.drop_first() =~= s@.subrange(i + 1, n as int));
            assert(before + (to@ + seq![t[0]] + replace_all(t.drop_first(), from@, to@)) =~= out@
                + replace_all(s@.subrange(i + 1, n as int), from@, to@));
            i = i + 1;
        } else if from.len() <= n - i && occurs_at_exec(s, from, i) {
            assert(from@.is_prefix_of(t)) by {
                assert(t.subrange(0, from@.len() as int) =~= s@.subrange(i as int, i + from@.len()));
            }
            let ghost before = out@;
            push_all(&mut out, to);
            assert(t.skip(from@.len() as int) =~= s@.subrange(i + from@.len(), n as int));
            assert(before + (to@ + replace_all(t.skip(from@.len() as int), from@, to@)) =~= out@ + replace_all(s@.subrange(i + from@.len(), n as int), from@, to@));
            i = i + from.len();
        } else {
            assert(!from@.is_prefix_of(t)) by {
                if from@.is_prefix_of(t) {
                    assert(t.subrange(0, from@.len() as int) =~= s@.subrange(i as int, i + from@.len()));
                }
            }
            let ghost before = out@;
            out.push(s[i]);
            assert(t.drop_first() =~= s@.subrange(i + 1, n as int));
            assert(before + (seq![t[0]] + replace_all(t.drop_first(), from@, to@)) =~= out@ + replace_all(s@.subrange(i + 1, n as int), from@, to@));
            i = i + 1;
        }
    }
    if from.len() == 0 {
        push_all(&mut out, to);
    }
    assert(s@.subrange(n as int, n as int) =~= Seq::<char>::empty());
    assert(out@ =~= out@ + Seq::<char>::empty());
    out
}

/// `s` with each character `c` replaced by `f(c)`, read from left to right.
pub open spec fn flat_chars(s: Seq<char>, f: spec_fn(char) -> Seq<char>) -> Seq<char>
    decreases s.len(),
{
    if s.len() == 0 {
        seq![]
    } else {
        f(s[0]) + flat_chars(s.drop_first(), f)
    }
}

/// Mapping characters distributes over concatenation.
pub proof fn lemma_flat_chars_append(a: Seq<char>, b: Seq<char>, f: spec_fn(char) -> Seq<char>)
    ensures
        flat_chars(a + b, f) == flat_chars(a, f) + flat_chars(b, f),
    decreases a.len(),
{
    if a.len() == 0 {
        assert(a + b =~= b);
        assert(flat_chars(a, f) + flat_chars(b, f) =~= flat_chars(b, f));
    } else {
        lemma_flat_chars_append(a.drop_first(), b, f);
        assert((a + b).drop_first() =~= a.drop_first() + b);
        assert(flat_chars(a + b, f) =~= f(a[0]) + (flat_chars(a.drop_first(), f) + flat_chars(b, f)));
    }
}

/// The map that applies `f`, then `g` to each character `f` gives.
pub open spec fn compose_maps(f: spec_fn(char) -> Seq<char>, g: spec_fn(char) -> Seq<char>) -> spec_fn(
    char,
) -> Seq<char> {
    |c: char| flat_chars(f(c), g)
}

/// Mapping twice is mapping once with the composed map.
pub proof fn lemma_flat_chars_compose(
    s: Seq<char>,
    f: spec_fn(char) -> Seq<char>,
    g: spec_fn(char) -> Seq<char>,
)
    ensures
        flat_chars(flat_chars(s, f), g) == flat_chars(s, compose_maps(f, g)),
    decreases s.len(),
{
    if s.len() > 0 {
        lemma_flat_chars_compose(s.drop_first(), f, g);
        lemma_flat_chars_append(f(s[0]), flat_chars(s.drop_first(), f), g);
    }
}

/// The map that puts `to` in place of `c` and keeps every other character.
pub open spec fn char_replacer(c: char, to: Seq<char>) -> spec_fn(char) -> Seq<char> {
    |x: char|
        if x == c {
            to
        } else {
            seq![x]
        }
}

/// Replacing one character is mapping each character to itself or to the replacement.
pub proof fn lemma_replace_char(s: Seq<char>, c: char, to: Seq<char>)
    ensures
        replace_all(s, seq![c], to) == flat_chars(s, char_replacer(c, to)),
    decreases s.len(),
{
    if s.len() > 0 {
        lemma_replace_char(s.drop_first(), c, to);
        if seq![c].is_prefix_of(s) {
            assert(s.subrange(0, 1)[0] == s[0]);
            assert(s.skip(1) =~= s.drop_first());
        } else {
            assert(s[0] != c) by {
                if s[0] == c {
                    assert(s.subrange(0, 1) =~= seq![c]);
                }
            }
        }
    }
}

/// Mapping with a function that keeps every character of `s` leaves `s` unchanged.
pub proof fn lemma_flat_chars_identity(s: Seq<char>, f: spec_fn(char) -> Seq<char>)
    requires
        forall|i: int| 0 <= i < s.len() ==> f(#[trigger] s[i]) == seq![s[i]],
    ensures
        flat_chars(s, f) == s,
    decreases s.len(),
{
    if s.len() > 0 {
        assert forall|i: int| 0 <= i < s.drop_first().len() implies f(#[trigger] s.drop_first()[i])
            == seq![s.drop_first()[i]] by {
            assert(s.drop_first()[i] == s[i + 1]);
        }
        lemma_flat_chars_identity(s.drop_first(), f);
        assert(f(s[0]) == seq![s[0]]);
        assert(seq![s[0]] + s.drop_first() =~= s);
    }
}

/// Mapping a single character gives what the map gives it.
pub proof fn lemma_flat_chars_single(c: char, f: spec_fn(char) -> Seq<char>)
    ensures
        flat_chars(seq![c], f) == f(c),
{
    assert(seq![c].drop_first() =~= Seq::<char>::empty());
    assert(flat_chars(Seq::<char>::empty(), f) == Seq::<char>::empty());
    assert(flat_chars(seq![c], f) == f(seq![c][0]) + flat_chars(seq![c].drop_first(), f));
    assert(f(c) + Seq::<char>::empty() =~= f(c));
}

/// `s` with each non-overlapping occurrence of `from` replaced by `to` (`str::replace`).
pub fn replace_text(s: &str, from: &str, to: &str) -> (r: String)
    ensures
        r@ == replace_all(s@, from@, to@),
{
    let out = replace_all_chars(&chars_of(s), &chars_of(from), &chars_of(to));
    string_of(&out)
}

/// The string that holds the characters of the literal `s`.
pub fn text_of(s: &str) -> (r: String)
    ensures
        r@ == s@,
{
    string_of(&chars_of(s))
}

/// `a` followed by `b`.
pub fn cat(a: &str, b: &str) -> (r: String)
    ensures
        r@ == a@ + b@,
{
    let mut v = chars_of(a);
    push_all(&mut v, &chars_of(b));
    string_of(&v)
}

/// No line holds a newline.
pub proof fn lemma_lines_have_no_newline(s: Seq<char>)
    ensures
        forall|i: int, j: int|
            0 <= i < lines(s).len() && 0 <= j < lines(s)[i].len() ==> #[trigger] lines(s)[i][j] != '\n',
    decreases s.len(),
{
    if s.len() > 0 {
        let k = first_index_of(s, '\n');
        lemma_first_index_of_bound(s, '\n');
        lemma_first_index_of_first(s, '\n');
        if k >= 0 {
            let rest = s.subrange(k + 1, s.len() as int);
            lemma_lines_have_no_newline(rest);
            let first = strip_cr(s.subrange(0, k));
            assert(lines(s) == seq![first] + lines(rest));
            assert forall|i: int, j: int|
                0 <= i < lines(s).len() && 0 <= j < lines(s)[i].len() implies #[trigger] lines(s)[i][j] != '\n' by {
                if i == 0 {
                    assert(lines(s)[0] == first);
                    assert(first[j] == s[j]);
                } else {
                    assert(lines(s)[i] == lines(rest)[i - 1]);
                }
            }
        } else {
            assert(lines(s) == seq![s]);
        }
    }
}

/// `s` with each `'\n'` written as `"\r\n"`, as a file saved with Windows line endings.
pub open spec fn crlf(s: Seq<char>) -> Seq<char> {
    flat_chars(s, char_replacer('\n', seq!['\r', '\n']))
}

/// Windows line endings give the same lines, for a text that holds no `'\r'` of its own.
pub proof fn lemma_lines_crlf(s: Seq<char>)
    requires
        forall|k: int| 0 <= k < s.len() ==> s[k] != '\r',
    ensures
        lines(crlf(s)) == lines(s),
    decreases s.len(),
{
    let f = char_replacer('\n', seq!['\r', '\n']);
    if s.len() > 0 {
        let i = first_index_of(s, '\n');
        lemma_first_index_of_bound(s, '\n');
        lemma_first_index_of_first(s, '\n');
        if i < 0 {
            assert forall|k: int| 0 <= k < s.len() implies f(#[trigger] s[k]) == seq![s[k]] by {}
            lemma_flat_chars_identity(s, f);
        } else {
            let p = s.subrange(0, i);
            let q = s.subrange(i + 1, s.len() as int);
            assert(s =~= p + (seq!['\n'] + q));
            lemma_flat_chars_append(p, seq!['\n'] + q, f);
            lemma_flat_chars_append(seq!['\n'], q, f);
            lemma_flat_chars_single('\n', f);
            assert forall|k: int| 0 <= k < p.len() implies f(#[trigger] p[k]) == seq![p[k]] by {
                assert(p[k] == s[k]);
            }
            lemma_flat_chars_identity(p, f);
            let t = crlf(s);
            let cq = crlf(q);
            assert(t == p + (seq!['\r', '\n'] + cq));
            assert forall|j: int| 0 <= j < i + 1 implies t[j] != '\n' by {
                if j < i {
                    assert(t[j] == s[j]);
                } else {
                    assert(t[j] == '\r');
                }
            }
            assert(t[i + 1] == '\n');
            lemma_first_index_of_is(t, '\n', i + 1);
            assert(t.subrange(0, i + 1) =~= p.push('\r'));
            assert(t.subrange(0, i + 1).drop_last() =~= p);
            assert(t.subrange(i + 2, t.len() as int) =~= cq);
            assert(strip_cr(p) == p) by {
                if p.len() > 0 {
                    assert(p.last() == s[i - 1]);
                }
            }
            lemma_lines_crlf(q);
            assert(lines(t) == seq![p] + lines(cq));
            assert(lines(s) == seq![p] + lines(q));
        }
    }
}

/// The lines of two texts, the first empty or ending in `'\n'`, are the lines of the first
/// and then those of the second.
pub proof fn lemma_lines_append(a: Seq<char>, b: Seq<char>)
    requires
        a.len() == 0 || a.last() == '\n',
    ensures
        lines(a + b) == lines(a) + lines(b),
    decreases a.len(),
{
    if a.len() == 0 {
        assert(a + b =~= b);
        assert(lines(a) + lines(b) =~= lines(b));
    } else {
        let i = first_index_of(a, '\n');
        lemma_first_index_of_bound(a, '\n');
        lemma_first_index_of_first(a, '\n');
        if i < 0 {
            assert(a[a.len() - 1] == '\n');
        }
        let ab = a + b;
        assert forall|j: int| 0 <= j < i implies ab[j] != '\n' by {
            assert(ab[j] == a[j]);
        }
        lemma_first_index_of_is(ab, '\n', i);
        let rest = a.subrange(i + 1, a.len() as int);
        assert(ab.subrange(0, i) =~= a.subrange(0, i));
        assert(ab.subrange(i + 1, ab.len() as int) =~= rest + b);
        if rest.len() > 0 {
            assert(rest.last() == a.last());
        }
        lemma_lines_append(rest, b);
        assert(lines(ab) == seq![strip_cr(a.subrange(0, i))] + lines(rest + b));
        assert(lines(a) == seq![strip_cr(a.subrange(0, i))] + lines(rest));
        assert(lines(ab) =~= lines(a) + lines(b));
    }
}

} // verus!
