//! Rewriting a named `<array>` element of an Android resource file.
use vstd::prelude::*;
use crate::text::{
    char_replacer, chars_of, compose_maps, flat_chars, join, join_chars, lemma_flat_chars_append,
    lemma_flat_chars_compose, lemma_flat_chars_identity, lemma_flat_chars_single,
    lemma_replace_char, push_all, replace_all, string_of, string_views,
};

verus! {

/// The escaped form of one character in an item of a string array.
pub open spec fn escape_xml_char(c: char) -> Seq<char> {
    if c == '&' {
        "&amp;"@
    } else if c == '<' {
        "&lt;"@
    } else if c == '>' {
        "&gt;"@
    } else if c == '\\' {
        "\\\\"@
    } else if c == '\'' {
        "\\'"@
    } else {
        seq![c]
    }
}

/// `s` with each character escaped by `escape_xml_char`.
pub open spec fn escaped_xml(s: Seq<char>) -> Seq<char>
    decreases s.len(),
{
    if s.len() == 0 {
        seq![]
    } else {
        escaped_xml(s.drop_last()) + escape_xml_char(s.last())
    }
}

/// Escapes `&`, `<`, `>`, backslash and `'` for an item of an Android string array.
pub fn escape_xml(s: &str) -> (r: String)
    ensures
        r@ == escaped_xml(s@),
{
    let cs = chars_of(s);
    let amp = chars_of("&amp;");
    let lt = chars_of("&lt;");
    let gt = chars_of("&gt;");
    let backslash = chars_of("\\\\");
    let quote = chars_of("\\'");
    let mut out: Vec<char> = Vec::new();
    let mut k: usize = 0;
    while k < cs.len()
        invariant
            k <= cs.len(),
            amp@ == "&amp;"@,
            lt@ == "&lt;"@,
            gt@ == "&gt;"@,
            backslash@ == "\\\\"@,
            quote@ == "\\'"@,
            out@ == escaped_xml(cs@.take(k as int)),
        decreases cs.len() - k,
    {
        let c = cs[k];
        if c == '&' {
            push_all(&mut out, &amp);
        } else if c == '<' {
            push_all(&mut out, &lt);
        } else if c == '>' {
            push_all(&mut out, &gt);
        } else if c == '\\' {
            push_all(&mut out, &backslash);
        } else if c == '\'' {
            push_all(&mut out, &quote);
        } else {
            out.push(c);
        }
        assert(cs@.take(k + 1).drop_last() =~= cs@.take(k as int));
        k = k + 1;
    }
    assert(cs@.take(cs.len() as int) =~= cs@);
    string_of(&out)
}

/// The characters that `regex::escape` puts a backslash before.
pub open spec fn is_regex_meta(c: char) -> bool {
    ||| c == '\\' || c == '.' || c == '+' || c == '*' || c == '?' || c == '('
    ||| c == ')' || c == '|' || c == '[' || c == ']' || c == '{' || c == '}'
    ||| c == '^' || c == '$' || c == '#' || c == '&' || c == '-' || c == '~'
}

/// `s` with a backslash before each regex meta character.
pub open spec fn regex_escaped(s: Seq<char>) -> Seq<char>
    decreases s.len(),
{
    if s.len() == 0 {
        seq![]
    } else {
        regex_escaped(s.drop_last()) + if is_regex_meta(s.last()) {
            seq!['\\', s.last()]
        } else {
            seq![s.last()]
        }
    }
}

/// Calls `regex::escape`, which, as its source shows, copies each character of `s` and puts a
/// backslash before each of the meta characters listed in `is_regex_meta`.
#[verifier::external_body]
fn regex_escape(s: &str) -> (r: String)
    ensures
        r@ == regex_escaped(s@),
{
    regex::escape(s)
}

/// Whether `regex::Regex::new` accepts `pattern`.
pub uninterp spec fn regex_compiles(pattern: Seq<char>) -> bool;

/// What `Regex::replace` returns for the regex compiled from `pattern`, `haystack` and the
/// replacement text `replacement`, taken literally (wrapped in `regex::NoExpand`, so that a
/// `$` in it is copied, not read as a capture reference).
pub uninterp spec fn regex_replaced(
    pattern: Seq<char>,
    haystack: Seq<char>,
    replacement: Seq<char>,
) -> Seq<char>;

/// Declares `regex::Error`, what `Regex::new` returns for a pattern it refuses; the library
/// only tells it apart from success.
#[verifier::external_type_specification]
#[verifier::external_body]
pub struct ExRegexError(regex::Error);

/// Whether `s` is `haystack` itself, or `haystack` with one stretch of it replaced by
/// `replacement`, copied as it is.
pub open spec fn spliced_once(haystack: Seq<char>, replacement: Seq<char>, s: Seq<char>) -> bool {
    ||| s == haystack
    ||| exists|i: int, j: int|
        0 <= i <= j <= haystack.len() && s == haystack.subrange(0, i) + replacement
            + haystack.subrange(j, haystack.len() as int)
}

/// Compiles `pattern` with `regex::Regex::new` and, where that succeeds, replaces the first
/// match in `haystack` with `replacement` by `Regex::replace`, the replacement wrapped in
/// `regex::NoExpand` so that it is copied as it is. As `Regex::replacen` shows, the result is
/// then the haystack unchanged where nothing matches, and otherwise the text before the
/// match, the replacement and the text after it. Which stretch the regex matches
/// (leftmost-first semantics) and the compile error are left unsaid: the results are named
/// `regex_compiles` and `regex_replaced`.
#[verifier::external_body]
fn regex_replace_first(pattern: &str, haystack: &str, replacement: &str) -> (r: Result<
    String,
    regex::Error,
>)
    ensures
        r is Ok <==> regex_compiles(pattern@),
        r matches Ok(s) ==> s@ == regex_replaced(pattern@, haystack@, replacement@),
        r matches Ok(s) ==> spliced_once(haystack@, replacement@, s@),
{
    match regex::Regex::new(pattern) {
        Ok(re) => Ok(re.replace(haystack, regex::NoExpand(replacement)).into_owned()),
        Err(e) => Err(e),
    }
}

/// The regex that finds the `<array>` element named `name`, from its opening tag through the
/// first `</array>` after it.
pub open spec fn array_pattern(name: Seq<char>) -> Seq<char> {
    "(?s)<array[^>]*\\bname\\s*=\\s*\""@ + regex_escaped(name) + "\"[^>]*>.*?</array>"@
}

/// One `<item>` line of a string array.
pub open spec fn item_line(item: Seq<char>) -> Seq<char> {
    "        <item>"@ + item + "</item>"@
}

/// A string array named `name` that lists `items`, one per line.
pub open spec fn array_block(name: Seq<char>, items: Seq<Seq<char>>) -> Seq<char> {
    "<array\n        name=\""@ + name + "\"\n        format=\"string\"\n    >\n"@ + join(
        items.map_values(|i: Seq<char>| item_line(i)),
        "\n"@,
    ) + "\n    </array>"@
}

/// The escaped forms of `items`.
pub open spec fn escaped_items(items: Seq<Seq<char>>) -> Seq<Seq<char>> {
    items.map_values(|i: Seq<char>| escaped_xml(i))
}

/// The replacement that an Android string array gets: its items XML-escaped.
pub open spec fn android_block(name: Seq<char>, items: Seq<Seq<char>>) -> Seq<char> {
    array_block(name, escaped_items(items))
}

/// The reasons a string array cannot be rewritten.
#[derive(Debug)]
pub enum ArrayUpdateError {
    /// The regex built from the array's name was refused by the regex engine.
    InvalidPattern,
}

/// The regex that finds the `<array>` element named `name`.
pub fn array_pattern_for(name: &str) -> (r: String)
    ensures
        r@ == array_pattern(name@),
{
    let escaped = regex_escape(name);
    let mut out = chars_of("(?s)<array[^>]*\\bname\\s*=\\s*\"");
    push_all(&mut out, &chars_of(escaped.as_str()));
    push_all(&mut out, &chars_of("\"[^>]*>.*?</array>"));
    string_of(&out)
}

/// The string array named `name` that lists `items`, one `<item>` line each.
pub fn emoji_array_block(name: &str, items: &[String]) -> (r: String)
    ensures
        r@ == array_block(name@, string_views(items@)),
{
    let open_item = chars_of("        <item>");
    let close_item = chars_of("</item>");
    let mut lines: Vec<Vec<char>> = Vec::new();
    let ghost its = string_views(items@);
    let mut k: usize = 0;
    while k < items.len()
        invariant
            k <= items.len(),
            its == string_views(items@),
            open_item@ == "        <item>"@,
            close_item@ == "</item>"@,
            crate::text::char_views(lines@) == its.take(k as int).map_values(
                |i: Seq<char>| item_line(i),
            ),
        decreases items.len() - k,
    {
        let mut line = copy_of(&open_item);
        push_all(&mut line, &chars_of(items[k].as_str()));
        push_all(&mut line, &close_item);
        let ghost before = lines@;
        lines.push(line);
        assert(its[k as int] == items@[k as int]@);
        assert(crate::text::char_views(lines@) =~= crate::text::char_views(before).push(line@));
        assert(crate::text::char_views(lines@) =~= its.take(k + 1).map_values(
            |i: Seq<char>| item_line(i),
        ));
        k = k + 1;
    }
    assert(its.take(items.len() as int) =~= its);
    let mut out = chars_of("<array\n        name=\"");
    push_all(&mut out, &chars_of(name));
    push_all(&mut out, &chars_of("\"\n        format=\"string\"\n    >\n"));
    push_all(&mut out, &join_chars(&lines, &chars_of("\n")));
    push_all(&mut out, &chars_of("\n    </array>"));
    string_of(&out)
}

/// A copy of `v`.
fn copy_of(v: &Vec<char>) -> (r: Vec<char>)
    ensures
        r@ == v@,
{
    let mut r: Vec<char> = Vec::new();
    push_all(&mut r, v);
    r
}

/// The string array named `name` that lists `items` XML-escaped, one `<item>` line each.
pub fn android_array_block(name: &str, items: &[String]) -> (r: String)
    ensures
        r@ == android_block(name@, string_views(items@)),
{
    let mut escaped: Vec<String> = Vec::new();
    let ghost its = string_views(items@);
    let mut k: usize = 0;
    while k < items.len()
        invariant
            k <= items.len(),
            its == string_views(items@),
            string_views(escaped@) == escaped_items(its.take(k as int)),
        decreases items.len() - k,
    {
        let e = escape_xml(items[k].as_str());
        let ghost before = escaped@;
        escaped.push(e);
        assert(its[k as int] == items@[k as int]@);
        assert(string_views(escaped@) =~= string_views(before).push(e@));
        assert(string_views(escaped@) =~= escaped_items(its.take(k + 1)));
        k = k + 1;
    }
    assert(its.take(items.len() as int) =~= its);
    emoji_array_block(name, escaped.as_slice())
}

/// Replaces the first `<array>` element named `array_name` in `content` with `block`.
pub fn replace_array_block(content: &str, array_name: &str, block: &str) -> (r: Result<
    String,
    ArrayUpdateError,
>)
    ensures
        r is Ok <==> regex_compiles(array_pattern(array_name@)),
        r matches Ok(s) ==> s@ == regex_replaced(array_pattern(array_name@), content@, block@),
        r matches Ok(s) ==> spliced_once(content@, block@, s@),
{
    let pattern = array_pattern_for(array_name);
    match regex_replace_first(pattern.as_str(), content, block) {
        Ok(s) => Ok(s),
        Err(_) => Err(ArrayUpdateError::InvalidPattern),
    }
}

/// Replaces the `<array>` element named `array_name` in `content` with one that lists
/// `items`, each copied as it is into its `<item>` line (a `$` included); the regex that
/// finds the element is `array_pattern(array_name)`.
pub fn update_emoji_array(content: &str, array_name: &str, items: &[String]) -> (r: Result<
    String,
    ArrayUpdateError,
>)
    ensures
        r is Ok <==> regex_compiles(array_pattern(array_name@)),
        r matches Ok(s) ==> s@ == regex_replaced(
            array_pattern(array_name@),
            content@,
            array_block(array_name@, string_views(items@)),
        ),
        r matches Ok(s) ==> spliced_once(content@, array_block(array_name@, string_views(items@)), s@),
{
    let block = emoji_array_block(array_name, items);
    replace_array_block(content, array_name, block.as_str())
}

/// Replaces the `<array>` element named `array_name` in `content` with one that lists
/// `items`, each XML-escaped.
pub fn update_android_array(content: &str, array_name: &str, items: &[String]) -> (r: Result<
    String,
    ArrayUpdateError,
>)
    ensures
        r is Ok <==> regex_compiles(array_pattern(array_name@)),
        r matches Ok(s) ==> s@ == regex_replaced(
            array_pattern(array_name@),
            content@,
            android_block(array_name@, string_views(items@)),
        ),
        r matches Ok(s) ==> spliced_once(content@, android_block(array_name@, string_views(items@)), s@),
{
    let block = android_array_block(array_name, items);
    replace_array_block(content, array_name, block.as_str())
}

/// The escape map as a function value.
pub open spec fn xml_escaper() -> spec_fn(char) -> Seq<char> {
    |c: char| escape_xml_char(c)
}

proof fn lemma_escaped_xml_flat(s: Seq<char>)
    ensures
        escaped_xml(s) == flat_chars(s, xml_escaper()),
    decreases s.len(),
{
    if s.len() > 0 {
        lemma_escaped_xml_flat(s.drop_last());
        lemma_flat_chars_append(s.drop_last(), seq![s.last()], xml_escaper());
        lemma_flat_chars_single(s.last(), xml_escaper());
        assert(s.drop_last() + seq![s.last()] =~= s);
    }
}

/// The five single-character replacements, in the order `escape_xml` chains them.
pub open spec fn amp_step() -> spec_fn(char) -> Seq<char> {
    char_replacer('&', "&amp;"@)
}

pub open spec fn lt_step() -> spec_fn(char) -> Seq<char> {
    char_replacer('<', "&lt;"@)
}

pub open spec fn gt_step() -> spec_fn(char) -> Seq<char> {
    char_replacer('>', "&gt;"@)
}

pub open spec fn backslash_step() -> spec_fn(char) -> Seq<char> {
    char_replacer('\\', "\\\\"@)
}

pub open spec fn quote_step() -> spec_fn(char) -> Seq<char> {
    char_replacer('\'', "\\'"@)
}

/// A step leaves `s` unchanged when `s` does not hold the step's character.
proof fn lemma_step_keeps(s: Seq<char>, c: char, to: Seq<char>)
    requires
        forall|i: int| 0 <= i < s.len() ==> s[i] != c,
    ensures
        flat_chars(s, char_replacer(c, to)) == s,
{
    lemma_flat_chars_identity(s, char_replacer(c, to));
}

/// The five steps, one after another, map `c` as `escape_xml_char` does.
proof fn lemma_chain_char(c: char)
    ensures
        compose_maps(
            compose_maps(compose_maps(compose_maps(amp_step(), lt_step()), gt_step()), backslash_step()),
            quote_step(),
        )(c) == escape_xml_char(c),
{
    reveal_strlit("&amp;");
    reveal_strlit("&lt;");
    reveal_strlit("&gt;");
    reveal_strlit("\\\\");
    reveal_strlit("\\'");
    let amp = "&amp;"@;
    let lt = "&lt;"@;
    let gt = "&gt;"@;
    let bs = "\\\\"@;
    let qt = "\\'"@;
    assert(amp =~= seq!['&', 'a', 'm', 'p', ';']);
    assert(lt =~= seq!['&', 'l', 't', ';']);
    assert(gt =~= seq!['&', 'g', 't', ';']);
    assert(bs =~= seq!['\\', '\\']);
    assert(qt =~= seq!['\\', '\'']);
    let f1 = amp_step();
    let f2 = compose_maps(f1, lt_step());
    let f3 = compose_maps(f2, gt_step());
    let f4 = compose_maps(f3, backslash_step());
    let f5 = compose_maps(f4, quote_step());
    if c == '&' {
        assert(f1(c) == amp);
        lemma_step_keeps(amp, '<', lt);
        lemma_step_keeps(amp, '>', gt);
        lemma_step_keeps(amp, '\\', bs);
        lemma_step_keeps(amp, '\'', qt);
    } else if c == '<' {
        lemma_flat_chars_single(c, lt_step());
        lemma_step_keeps(lt, '>', gt);
        lemma_step_keeps(lt, '\\', bs);
        lemma_step_keeps(lt, '\'', qt);
    } else if c == '>' {
        lemma_flat_chars_single(c, lt_step());
        lemma_flat_chars_single(c, gt_step());
        lemma_step_keeps(gt, '\\', bs);
        lemma_step_keeps(gt, '\'', qt);
    } else if c == '\\' {
        lemma_flat_chars_single(c, lt_step());
        lemma_flat_chars_single(c, gt_step());
        lemma_flat_chars_single(c, backslash_step());
        lemma_step_keeps(bs, '\'', qt);
    } else {
        lemma_flat_chars_single(c, lt_step());
        lemma_flat_chars_single(c, gt_step());
        lemma_flat_chars_single(c, backslash_step());
        lemma_flat_chars_single(c, quote_step());
    }
}

/// Escaping an item is the same as applying, in order, the five replacements
/// `& -> &amp;`, `< -> &lt;`, `> -> &gt;`, `\ -> \\` and `' -> \'` to the whole item.
pub proof fn lemma_escape_xml_is_replace_chain(s: Seq<char>)
    ensures
        escaped_xml(s) == replace_all(
            replace_all(
                replace_all(replace_all(replace_all(s, "&"@, "&amp;"@), "<"@, "&lt;"@), ">"@, "&gt;"@),
                "\\"@,
                "\\\\"@,
            ),
            "'"@,
            "\\'"@,
        ),
{
    reveal_strlit("&");
    reveal_strlit("<");
    reveal_strlit(">");
    reveal_strlit("\\");
    reveal_strlit("'");
    assert("&"@ =~= seq!['&']);
    assert("<"@ =~= seq!['<']);
    assert(">"@ =~= seq!['>']);
    assert("\\"@ =~= seq!['\\']);
    assert("'"@ =~= seq!['\'']);
    let r1 = replace_all(s, "&"@, "&amp;"@);
    let r2 = replace_all(r1, "<"@, "&lt;"@);
    let r3 = replace_all(r2, ">"@, "&gt;"@);
    let r4 = replace_all(r3, "\\"@, "\\\\"@);
    let r5 = replace_all(r4, "'"@, "\\'"@);
    lemma_replace_char(s, '&', "&amp;"@);
    lemma_replace_char(r1, '<', "&lt;"@);
    lemma_replace_char(r2, '>', "&gt;"@);
    lemma_replace_char(r3, '\\', "\\\\"@);
    lemma_replace_char(r4, '\'', "\\'"@);
    let f1 = amp_step();
    let f2 = compose_maps(f1, lt_step());
    let f3 = compose_maps(f2, gt_step());
    let f4 = compose_maps(f3, backslash_step());
    let f5 = compose_maps(f4, quote_step());
    lemma_flat_chars_compose(s, f1, lt_step());
    lemma_flat_chars_compose(s, f2, gt_step());
    lemma_flat_chars_compose(s, f3, backslash_step());
    lemma_flat_chars_compose(s, f4, quote_step());
    assert forall|c: char| #[trigger] f5(c) == xml_escaper()(c) by {
        lemma_chain_char(c);
    }
    assert(f5 =~= xml_escaper());
    lemma_escaped_xml_flat(s);
}

/// An escaped item holds no `<` and no `>`, so it cannot open or close an element.
pub proof fn lemma_escaped_has_no_angle_brackets(s: Seq<char>)
    ensures
        forall|i: int| 0 <= i < escaped_xml(s).len() ==> #[trigger] escaped_xml(s)[i] != '<' && escaped_xml(s)[i] != '>',
    decreases s.len(),
{
    if s.len() > 0 {
        lemma_escaped_has_no_angle_brackets(s.drop_last());
        let a = escaped_xml(s.drop_last());
        let b = escape_xml_char(s.last());
        reveal_strlit("&amp;");
        reveal_strlit("&lt;");
        reveal_strlit("&gt;");
        reveal_strlit("\\\\");
        reveal_strlit("\\'");
        assert forall|j: int| 0 <= j < b.len() implies b[j] != '<' && b[j] != '>' by {
            let c = s.last();
            if c == '&' {
                assert(b =~= seq!['&', 'a', 'm', 'p', ';']);
            } else if c == '<' {
                assert(b =~= seq!['&', 'l', 't', ';']);
            } else if c == '>' {
                assert(b =~= seq!['&', 'g', 't', ';']);
            } else if c == '\\' {
                assert(b =~= seq!['\\', '\\']);
            } else if c == '\'' {
                assert(b =~= seq!['\\', '\'']);
            } else {
                assert(b == seq![c]);
            }
        }
        assert forall|i: int| 0 <= i < (a + b).len() implies #[trigger] (a + b)[i] != '<' && (a + b)[i] != '>' by {
            if i >= a.len() {
                assert((a + b)[i] == b[i - a.len()]);
            } else {
                assert((a + b)[i] == a[i]);
            }
        }
    }
}


/// The escaped form of a character as a fixed sequence: what `escape_xml_char` gives, spelled
/// out character by character.
proof fn lemma_escape_char_spelled(c: char)
    ensures
        c == '&' ==> escape_xml_char(c) == seq!['&', 'a', 'm', 'p', ';'],
        c == '<' ==> escape_xml_char(c) == seq!['&', 'l', 't', ';'],
        c == '>' ==> escape_xml_char(c) == seq!['&', 'g', 't', ';'],
        c == '\\' ==> escape_xml_char(c) == seq!['\\', '\\'],
        c == '\'' ==> escape_xml_char(c) == seq!['\\', '\''],
{
    reveal_strlit("&amp;");
    reveal_strlit("&lt;");
    reveal_strlit("&gt;");
    reveal_strlit("\\\\");
    reveal_strlit("\\'");
    assert(c == '&' ==> escape_xml_char(c) =~= seq!['&', 'a', 'm', 'p', ';']);
    assert(c == '<' ==> escape_xml_char(c) =~= seq!['&', 'l', 't', ';']);
    assert(c == '>' ==> escape_xml_char(c) =~= seq!['&', 'g', 't', ';']);
    assert(c == '\\' ==> escape_xml_char(c) =~= seq!['\\', '\\']);
    assert(c == '\'' ==> escape_xml_char(c) =~= seq!['\\', '\'']);
}

/// Two characters whose escaped forms start two equal texts are the same character: each
/// escaped form is read off unambiguously from the front.
proof fn lemma_escape_char_prefix(x: char, y: char, rx: Seq<char>, ry: Seq<char>)
    requires
        escape_xml_char(x) + rx == escape_xml_char(y) + ry,
    ensures
        x == y,
        rx == ry,
{
    lemma_escape_char_spelled(x);
    lemma_escape_char_spelled(y);
    let e = escape_xml_char(x) + rx;
    let ex = escape_xml_char(x);
    let ey = escape_xml_char(y);
    assert(e[0] == ex[0]);
    assert(e[0] == ey[0]);
    assert(ex.len() >= 2 ==> e[1] == ex[1]);
    assert(ey.len() >= 2 ==> (escape_xml_char(y) + ry)[1] == ey[1]);
    assert(x == y);
    assert(rx =~= e.subrange(ex.len() as int, e.len() as int));
    assert(ry =~= (escape_xml_char(y) + ry).subrange(ey.len() as int, e.len() as int));
}

proof fn lemma_flat_escape_injective(a: Seq<char>, b: Seq<char>)
    requires
        flat_chars(a, xml_escaper()) == flat_chars(b, xml_escaper()),
    ensures
        a == b,
    decreases a.len(),
{
    if a.len() == 0 {
        if b.len() > 0 {
            lemma_escape_char_spelled(b[0]);
            assert(escape_xml_char(b[0]).len() > 0);
            assert(flat_chars(b, xml_escaper()).len() > 0);
        }
        assert(a =~= b);
    } else {
        if b.len() == 0 {
            lemma_escape_char_spelled(a[0]);
            assert(escape_xml_char(a[0]).len() > 0);
            assert(flat_chars(a, xml_escaper()).len() > 0);
        } else {
            lemma_escape_char_prefix(
                a[0],
                b[0],
                flat_chars(a.drop_first(), xml_escaper()),
                flat_chars(b.drop_first(), xml_escaper()),
            );
            lemma_flat_escape_injective(a.drop_first(), b.drop_first());
            assert(a =~= seq![a[0]] + a.drop_first());
            assert(b =~= seq![b[0]] + b.drop_first());
        }
    }
}

/// Escaping loses nothing: two items with the same escaped form are the same item.
pub proof fn lemma_escape_xml_injective(a: Seq<char>, b: Seq<char>)
    requires
        escaped_xml(a) == escaped_xml(b),
    ensures
        a == b,
{
    lemma_escaped_xml_flat(a);
    lemma_escaped_xml_flat(b);
    lemma_flat_escape_injective(a, b);
}

/// Whether `t` starts with the characters `p`.
pub open spec fn starts_with(t: Seq<char>, p: Seq<char>) -> bool {
    t.len() >= p.len() && t.subrange(0, p.len() as int) == p
}

/// Reads an escaped item back, left to right: `&amp;`, `&lt;`, `&gt;`, a doubled backslash
/// and a backslashed quote become `&`, `<`, `>`, a backslash and `'`; any other character
/// stays.
pub open spec fn unescape_xml(t: Seq<char>) -> Seq<char>
    decreases t.len(),
{
    if t.len() == 0 {
        seq![]
    } else if starts_with(t, seq!['&', 'a', 'm', 'p', ';']) {
        seq!['&'] + unescape_xml(t.skip(5))
    } else if starts_with(t, seq!['&', 'l', 't', ';']) {
        seq!['<'] + unescape_xml(t.skip(4))
    } else if starts_with(t, seq!['&', 'g', 't', ';']) {
        seq!['>'] + unescape_xml(t.skip(4))
    } else if starts_with(t, seq!['\\', '\\']) {
        seq!['\\'] + unescape_xml(t.skip(2))
    } else if starts_with(t, seq!['\\', '\'']) {
        seq!['\''] + unescape_xml(t.skip(2))
    } else {
        seq![t[0]] + unescape_xml(t.skip(1))
    }
}

/// Reading back an escaped character followed by more text gives the character, then the
/// reading of the rest.
proof fn lemma_unescape_step(c: char, rest: Seq<char>)
    ensures
        unescape_xml(escape_xml_char(c) + rest) == seq![c] + unescape_xml(rest),
{
    lemma_escape_char_spelled(c);
    let e = escape_xml_char(c);
    let t = e + rest;
    assert(t.skip(e.len() as int) =~= rest);
    assert(t.subrange(0, e.len() as int) =~= e);
    assert(t[0] == e[0]);
    if e.len() >= 2 {
        assert(t[1] == e[1]);
    }
    if c == '&' {
        assert(starts_with(t, seq!['&', 'a', 'm', 'p', ';']));
    } else if c == '<' {
        assert(!starts_with(t, seq!['&', 'a', 'm', 'p', ';'])) by {
            if starts_with(t, seq!['&', 'a', 'm', 'p', ';']) {
                assert(t.subrange(0, 5)[1] == t[1]);
            }
        }
        assert(starts_with(t, seq!['&', 'l', 't', ';']));
    } else if c == '>' {
        assert(!starts_with(t, seq!['&', 'a', 'm', 'p', ';'])) by {
            if starts_with(t, seq!['&', 'a', 'm', 'p', ';']) {
                assert(t.subrange(0, 5)[1] == t[1]);
            }
        }
        assert(!starts_with(t, seq!['&', 'l', 't', ';'])) by {
            if starts_with(t, seq!['&', 'l', 't', ';']) {
                assert(t.subrange(0, 4)[1] == t[1]);
            }
        }
        assert(starts_with(t, seq!['&', 'g', 't', ';']));
    } else if c == '\\' {
        assert(!starts_with(t, seq!['&', 'a', 'm', 'p', ';'])) by {
            if starts_with(t, seq!['&', 'a', 'm', 'p', ';']) {
                assert(t.subrange(0, 5)[0] == t[0]);
            }
        }
        assert(!starts_with(t, seq!['&', 'l', 't', ';'])) by {
            if starts_with(t, seq!['&', 'l', 't', ';']) {
                assert(t.subrange(0, 4)[0] == t[0]);
            }
        }
        assert(!starts_with(t, seq!['&', 'g', 't', ';'])) by {
            if starts_with(t, seq!['&', 'g', 't', ';']) {
                assert(t.subrange(0, 4)[0] == t[0]);
            }
        }
        assert(starts_with(t, seq!['\\', '\\']));
    } else if c == '\'' {
        assert(!starts_with(t, seq!['&', 'a', 'm', 'p', ';'])) by {
            if starts_with(t, seq!['&', 'a', 'm', 'p', ';']) {
                assert(t.subrange(0, 5)[0] == t[0]);
            }
        }
        assert(!starts_with(t, seq!['&', 'l', 't', ';'])) by {
            if starts_with(t, seq!['&', 'l', 't', ';']) {
                assert(t.subrange(0, 4)[0] == t[0]);
            }
        }
        assert(!starts_with(t, seq!['&', 'g', 't', ';'])) by {
            if starts_with(t, seq!['&', 'g', 't', ';']) {
                assert(t.subrange(0, 4)[0] == t[0]);
            }
        }
        assert(!starts_with(t, seq!['\\', '\\'])) by {
            if starts_with(t, seq!['\\', '\\']) {
                assert(t.subrange(0, 2)[1] == t[1]);
            }
        }
        assert(starts_with(t, seq!['\\', '\'']));
    } else {
        assert(e == seq![c]);
        assert forall|p: Seq<char>| p.len() > 0 && p[0] != c implies !starts_with(t, p) by {
            if starts_with(t, p) {
                assert(t.subrange(0, p.len() as int)[0] == t[0]);
            }
        }
        assert(seq!['&', 'a', 'm', 'p', ';'][0] == '&');
        assert(seq!['&', 'l', 't', ';'][0] == '&');
        assert(seq!['&', 'g', 't', ';'][0] == '&');
        assert(seq!['\\', '\\'][0] == '\\');
        assert(seq!['\\', '\''][0] == '\\');
    }
}

proof fn lemma_unescape_flat(s: Seq<char>)
    ensures
        unescape_xml(flat_chars(s, xml_escaper())) == s,
    decreases s.len(),
{
    if s.len() > 0 {
        lemma_unescape_flat(s.drop_first());
        lemma_unescape_step(s[0], flat_chars(s.drop_first(), xml_escaper()));
        assert(seq![s[0]] + s.drop_first() =~= s);
    }
}

/// Escaping can be undone: reading an escaped item back gives the item. Hence two items with
/// the same escaped form are the same item (see `lemma_escape_xml_injective`).
pub proof fn lemma_unescape_escape_xml(s: Seq<char>)
    ensures
        unescape_xml(escaped_xml(s)) == s,
{
    lemma_escaped_xml_flat(s);
    lemma_unescape_flat(s);
}

} // verus!
