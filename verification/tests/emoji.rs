use jos_tools::categories::{emoji_script_document, emoji_tool_document, update_group_arrays};
use jos_tools::emoji_test::parse_emoji_test_grouped;
use jos_tools::groups::{dedup_preserve_order, Groups};
use jos_tools::kaomoji::{group_kaomojis, KaomojiCategory, KaomojiRoot};
use jos_tools::xml_array::{
    android_array_block, array_pattern_for, emoji_array_block, escape_xml, update_android_array,
    update_emoji_array,
};
use jos_tools::array_tables::{emoji_arrays, emoji_script_arrays};
use jos_tools::text::{chars_of, line_count, lines_of};

const SAMPLE: &str = "# emoji-test.txt\n\
# group: Smileys & Emotion\n\
# subgroup: face-smiling\n\
1F600                                                  ; fully-qualified     # \u{1F600} E1.0 grinning face\n\
263A FE0F                                              ; fully-qualified     # E0.6 smiling face\n\
263A                                                   ; unqualified         # E0.6 smiling face\n\
# group: People & Body\n\
1F44B                                                  ; fully-qualified     # E0.6 waving hand\n\
1F44B 1F3FB                                            ; fully-qualified     # E1.0 waving hand: light skin tone\n\
# group: Component\n\
1F3FB                                                  ; component           # E1.0 light skin tone\n\
# group: Flags\r\n\
1f3c1                                                  ; fully-qualified     # E0.6 chequered flag\n";

fn names(g: &Groups) -> Vec<String> {
    (0..g.len()).map(|i| g.group_at(i).name.clone()).collect()
}

fn items(g: &Groups, name: &str) -> Vec<String> {
    g.get(&name.to_string()).cloned().unwrap_or_default()
}

fn strings(v: &[&str]) -> Vec<String> {
    v.iter().map(|s| s.to_string()).collect()
}

#[test]
fn parse_groups_entries_by_header() {
    let g = parse_emoji_test_grouped(SAMPLE);
    assert_eq!(
        names(&g),
        strings(&["Smileys & Emotion", "Smileys & Emotion - boring", "Flags"])
    );
    assert_eq!(items(&g, "Smileys & Emotion"), strings(&["1F600", "263A,FE0F", "1F44B"]));
    assert_eq!(items(&g, "Smileys & Emotion - boring"), strings(&["1F600", "263A,FE0F", "1F44B"]));
    assert_eq!(items(&g, "Flags"), strings(&["1F3C1"]));
    assert!(g.get(&"People & Body".to_string()).is_none());
}

#[test]
fn parse_entries_before_any_header_go_to_empty_group() {
    let g = parse_emoji_test_grouped("1f600 ; fully-qualified # x\n");
    assert_eq!(names(&g), strings(&[""]));
    assert_eq!(items(&g, ""), strings(&["1F600"]));
}

#[test]
fn parse_empty_text_has_no_groups() {
    assert_eq!(parse_emoji_test_grouped("").len(), 0);
}

#[test]
fn parse_header_names_are_trimmed() {
    let g = parse_emoji_test_grouped("# group:   Animals & Nature  \n1F435 ; fully-qualified # monkey\n");
    assert_eq!(names(&g), strings(&["Animals & Nature"]));
}

#[test]
fn escape_xml_escapes_each_special_character() {
    assert_eq!(escape_xml("a&b<c>d\\e'f"), "a&amp;b&lt;c&gt;d\\\\e\\'f");
    assert_eq!(escape_xml("plain"), "plain");
    assert_eq!(escape_xml(""), "");
}

#[test]
fn escape_xml_matches_chained_replace() {
    for s in ["&<>\\'", "(>_<)", "\\&amp;", "x'y"] {
        let chained = s
            .replace('&', "&amp;")
            .replace('<', "&lt;")
            .replace('>', "&gt;")
            .replace("\\", "\\\\")
            .replace('\'', "\\'");
        assert_eq!(escape_xml(s), chained);
    }
}

#[test]
fn parse_windows_line_endings_gives_the_same_groups() {
    let crlf = SAMPLE.replace('\n', "\r\n");
    let a = parse_emoji_test_grouped(SAMPLE);
    let b = parse_emoji_test_grouped(&crlf);
    assert_eq!(names(&a), names(&b));
    for n in names(&a) {
        assert_eq!(items(&a, &n), items(&b, &n));
    }
}

#[test]
fn parse_of_joined_files_continues_the_first() {
    let a = "# group: Flags\n1F3C1 ; fully-qualified # chequered flag\n";
    let b = "1F6A9 ; fully-qualified # triangular flag\n# group: Animals & Nature\n1F435 ; fully-qualified # monkey face\n";
    let g = parse_emoji_test_grouped(&format!("{}{}", a, b));
    assert_eq!(names(&g), strings(&["Flags", "Animals & Nature"]));
    assert_eq!(items(&g, "Flags"), strings(&["1F3C1", "1F6A9"]));
    assert_eq!(items(&g, "Animals & Nature"), strings(&["1F435"]));
}

#[test]
fn parse_of_joined_files_at_a_header_appends_per_group() {
    let a = "# group: Flags\n1F3C1 ; fully-qualified # chequered flag\n# group: Smileys & Emotion\n1F600 ; fully-qualified # grin\n";
    let b = "# group: Flags\n1F6A9 ; fully-qualified # triangular flag\n# group: Smileys & Emotion\n1F601 ; fully-qualified # beam\n";
    let joined = parse_emoji_test_grouped(&format!("{}{}", a, b));
    let ga = parse_emoji_test_grouped(a);
    let gb = parse_emoji_test_grouped(b);
    for k in ["Flags", "Smileys & Emotion", "Smileys & Emotion - boring", "Animals & Nature"] {
        let mut expected = items(&ga, k);
        expected.extend(items(&gb, k));
        assert_eq!(items(&joined, k), expected);
    }
    assert_eq!(items(&joined, "Smileys & Emotion - boring"), strings(&["1F600", "1F601"]));
}

fn unescape(t: &str) -> String {
    let mut out = String::new();
    let mut rest = t;
    while let Some(c) = rest.chars().next() {
        let pairs = [("&amp;", '&'), ("&lt;", '<'), ("&gt;", '>'), ("\\\\", '\\'), ("\\'", '\'')];
        match pairs.iter().find(|(p, _)| rest.starts_with(p)) {
            Some((p, ch)) => {
                out.push(*ch);
                rest = &rest[p.len()..];
            }
            None => {
                out.push(c);
                rest = &rest[c.len_utf8()..];
            }
        }
    }
    out
}

#[test]
fn escape_xml_reads_back() {
    for s in ["&amp;", "&", "\\\\'", "a<b>&c\\d'e", "(^_^) \\o/", "&lt;&gt;", ""] {
        assert_eq!(unescape(&escape_xml(s)), s);
    }
}

#[test]
fn escape_xml_keeps_distinct_items_distinct() {
    let items = ["&amp;", "&", "\\", "\\'", "\'", "'", "<", "&lt;", ""];
    for a in items {
        for b in items {
            assert_eq!(escape_xml(a) == escape_xml(b), a == b);
        }
    }
}

#[test]
fn array_pattern_escapes_the_name() {
    assert_eq!(
        array_pattern_for("emoji.a-b"),
        "(?s)<array[^>]*\\bname\\s*=\\s*\"emoji\\.a\\-b\"[^>]*>.*?</array>"
    );
}

#[test]
fn emoji_array_block_lists_items() {
    let block = emoji_array_block("flags", &strings(&["1F3C1", "1F6A9"]));
    assert_eq!(
        block,
        "<array\n        name=\"flags\"\n        format=\"string\"\n    >\n        <item>1F3C1</item>\n        <item>1F6A9</item>\n    </array>"
    );
    assert_eq!(line_count(&block), 7);
}

#[test]
fn android_array_block_escapes_items() {
    let block = android_array_block("k", &strings(&["<3"]));
    assert_eq!(
        block,
        "<array\n        name=\"k\"\n        format=\"string\"\n    >\n        <item>&lt;3</item>\n    </array>"
    );
}

const TEMPLATE: &str = "<resources>\n    <array name=\"emoji_eight_flags\" format=\"string\">\n        <item>OLD</item>\n    </array>\n    <array name=\"emoji_emoticons\" format=\"string\">\n    </array>\n</resources>\n";

#[test]
fn update_emoji_array_replaces_only_the_named_array() {
    let out = update_emoji_array(TEMPLATE, "emoji_eight_flags", &strings(&["1F3C1"])).unwrap();
    assert_eq!(
        out,
        "<resources>\n    <array\n        name=\"emoji_eight_flags\"\n        format=\"string\"\n    >\n        <item>1F3C1</item>\n    </array>\n    <array name=\"emoji_emoticons\" format=\"string\">\n    </array>\n</resources>\n"
    );
}

#[test]
fn update_emoji_array_copies_dollar_signs() {
    let content = "<array name=\"emoji_emoticons\">\n</array>";
    let out = update_emoji_array(content, "emoji_emoticons", &strings(&["($_$)"])).unwrap();
    assert_eq!(
        out,
        "<array\n        name=\"emoji_emoticons\"\n        format=\"string\"\n    >\n        <item>($_$)</item>\n    </array>"
    );
    let out = update_android_array(content, "emoji_emoticons", &strings(&["$1 ${0}"])).unwrap();
    assert!(out.contains("<item>$1 ${0}</item>"));
}

#[test]
fn update_emoji_array_without_match_keeps_content() {
    let out = update_emoji_array(TEMPLATE, "emoji_missing", &strings(&["X"])).unwrap();
    assert_eq!(out, TEMPLATE);
}

#[test]
fn update_android_array_escapes_items() {
    let out = update_android_array(TEMPLATE, "emoji_emoticons", &strings(&["<3", "it's"])).unwrap();
    assert!(out.contains("        <item>&lt;3</item>\n        <item>it\\'s</item>\n    </array>"));
    assert!(out.contains("<item>OLD</item>"));
}

fn kaomoji_roots() -> Vec<KaomojiRoot> {
    vec![KaomojiRoot {
        name: "set".to_string(),
        categories: vec![
            KaomojiCategory { name: "Joy".to_string(), emoticons: strings(&["^_^", "^_^", "(^o^)"]) },
            KaomojiCategory { name: "Love".to_string(), emoticons: strings(&["<3"]) },
            KaomojiCategory { name: "Joy".to_string(), emoticons: strings(&["(^o^)", "\\o/"]) },
        ],
    }]
}

#[test]
fn group_kaomojis_prefixes_category_names() {
    let g = group_kaomojis(&kaomoji_roots());
    assert_eq!(names(&g), strings(&["KaomojisJoy", "KaomojisLove"]));
    assert_eq!(items(&g, "KaomojisJoy"), strings(&["^_^", "^_^", "(^o^)", "(^o^)", "\\o/"]));
}

#[test]
fn dedup_preserve_order_keeps_first_occurrences() {
    let g = dedup_preserve_order(group_kaomojis(&kaomoji_roots()));
    assert_eq!(names(&g), strings(&["KaomojisJoy", "KaomojisLove"]));
    assert_eq!(items(&g, "KaomojisJoy"), strings(&["^_^", "(^o^)", "\\o/"]));
    assert_eq!(items(&g, "KaomojisLove"), strings(&["<3"]));
}

#[test]
fn dedup_twice_changes_nothing() {
    let once = dedup_preserve_order(group_kaomojis(&kaomoji_roots()));
    let twice = dedup_preserve_order(dedup_preserve_order(group_kaomojis(&kaomoji_roots())));
    assert_eq!(names(&once), names(&twice));
    assert_eq!(items(&once, "KaomojisJoy"), items(&twice, "KaomojisJoy"));
}

#[test]
fn extend_replaces_groups_of_the_same_name() {
    let mut a = Groups::new();
    a.push_item("A".to_string(), "1".to_string());
    a.push_item("B".to_string(), "2".to_string());
    let mut b = Groups::new();
    b.push_item("B".to_string(), "3".to_string());
    b.push_item("C".to_string(), "4".to_string());
    a.extend(b);
    assert_eq!(names(&a), strings(&["A", "B", "C"]));
    assert_eq!(items(&a, "B"), strings(&["3"]));
    assert_eq!(items(&a, "A"), strings(&["1"]));
}

#[test]
fn push_item_appends_in_order() {
    let mut a = Groups::new();
    a.push_item("A".to_string(), "1".to_string());
    a.push_item("B".to_string(), "2".to_string());
    a.push_item("A".to_string(), "3".to_string());
    assert_eq!(names(&a), strings(&["A", "B"]));
    assert_eq!(items(&a, "A"), strings(&["1", "3"]));
}

#[test]
fn tables_map_known_groups() {
    let t = emoji_script_arrays();
    assert_eq!(t.len(), 10);
    assert_eq!(t[0], ("Smileys & Emotion".to_string(), "emoji_eight_smiley_people".to_string()));
    let t = emoji_arrays();
    assert_eq!(t.len(), 47);
    assert_eq!(t[46], ("KaomojisSpecial".to_string(), "emoji_kaomojis_special".to_string()));
}

#[test]
fn update_group_arrays_reports_updates_and_skips() {
    let mut g = Groups::new();
    g.push_item("Flags".to_string(), "1F3C1".to_string());
    g.push_item("Unknown".to_string(), "X".to_string());
    let u = update_group_arrays(TEMPLATE, &g, &emoji_script_arrays(), false).unwrap();
    assert_eq!(u.skipped, strings(&["Unknown"]));
    assert_eq!(u.updated.len(), 1);
    assert_eq!(u.updated[0].0, "emoji_eight_flags");
    assert!(u.content.contains("<item>1F3C1</item>"));
}

#[test]
fn emoji_script_document_fills_emoticons() {
    let u = emoji_script_document(TEMPLATE, SAMPLE, ":-)\n;-)\n").unwrap();
    assert!(u.content.contains("        <item>:-)</item>\n        <item>;-)</item>\n    </array>"));
    assert!(u.content.contains("<item>1F3C1</item>"));
    assert!(u.skipped.is_empty());
}

#[test]
fn emoji_tool_document_adds_deduplicated_kaomojis() {
    let template = format!("{}<array name=\"emoji_kaomojis_joy\"></array>\n", TEMPLATE);
    let u = emoji_tool_document(&template, SAMPLE, "<3\n", &kaomoji_roots()).unwrap();
    assert!(u.content.contains("        <item>^_^</item>\n        <item>(^o^)</item>\n        <item>\\\\o/</item>\n    </array>"));
    assert!(u.content.contains("<item>&lt;3</item>"));
    assert!(u.updated.iter().any(|(a, _)| a == "emoji_kaomojis_love"));
}

#[test]
fn update_group_arrays_without_mapped_groups_keeps_template() {
    let mut g = Groups::new();
    g.push_item("Nowhere".to_string(), "X".to_string());
    let u = update_group_arrays(TEMPLATE, &g, &emoji_script_arrays(), false).unwrap();
    assert_eq!(u.content, TEMPLATE);
    assert!(u.updated.is_empty());
    assert_eq!(u.skipped, strings(&["Nowhere"]));
}

#[test]
fn oversized_array_name_is_refused_by_the_regex_engine() {
    let name = "a".repeat(3_000_000);
    assert!(update_emoji_array(TEMPLATE, &name, &strings(&["X"])).is_err());
}

#[test]
fn lines_split_at_newlines_and_drop_carriage_returns() {
    let ls = lines_of(&chars_of("a\r\nb\n\nc\r"));
    let got: Vec<String> = ls.iter().map(|l| l.iter().collect()).collect();
    assert_eq!(got, strings(&["a", "b", "", "c\r"]));
    assert_eq!(line_count("x\n"), 1);
    assert_eq!(line_count(""), 0);
}
