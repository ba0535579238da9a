//! Which group goes into which string array of the keyboard's emoji resource file.
use vstd::prelude::*;
use crate::text::string_of;
use crate::text::chars_of;

verus! {

/// The name pairs that a table of `(String, String)` holds.
pub open spec fn pair_views(t: Seq<(String, String)>) -> Seq<(Seq<char>, Seq<char>)> {
    t.map_values(|p: (String, String)| (p.0@, p.1@))
}

/// Appends the pair `(a, b)` to `t`.
fn push_pair(t: &mut Vec<(String, String)>, a: &str, b: &str)
    ensures
        pair_views(final(t)@) == pair_views(old(t)@).push((a@, b@)),
{
    let ghost t0 = t@;
    let p = (string_of(&chars_of(a)), string_of(&chars_of(b)));
    t.push(p);
    assert(pair_views(t@) =~= pair_views(t0).push((a@, b@)));
}

/// Appends the pairs of `b` to `a`.
fn append_pairs(a: &mut Vec<(String, String)>, b: Vec<(String, String)>)
    ensures
        pair_views(final(a)@) == pair_views(old(a)@) + pair_views(b@),
{
    let ghost a0 = a@;
    let ghost b0 = b@;
    let mut b = b;
    a.append(&mut b);
    assert(pair_views(a@) =~= pair_views(a0) + pair_views(b0));
}

/// The group-to-array table of the emoji script that reads `emoji-test.txt` alone.
pub open spec fn emoji_script_table() -> Seq<(Seq<char>, Seq<char>)> {
    seq![
        ("Smileys & Emotion"@, "emoji_eight_smiley_people"@),
        ("Animals & Nature"@, "emoji_eight_animals_nature"@),
        ("Food & Drink"@, "emoji_eight_food_drink"@),
        ("Travel & Places"@, "emoji_eight_travel_places"@),
        ("Activities"@, "emoji_eight_activity"@),
        ("Objects"@, "emoji_eight_objects"@),
        ("Symbols"@, "emoji_eight_symbols"@),
        ("Flags"@, "emoji_eight_flags"@),
        ("Emoticons"@, "emoji_emoticons"@),
        ("Smileys & Emotion - boring"@, "emoji_eight_smiley_people_boring"@),
    ]
}

/// Kaomoji categories of the emoji tool's table, part 1.
pub open spec fn kaomoji_table_1() -> Seq<(Seq<char>, Seq<char>)> {
    seq![
        ("KaomojisJoy"@, "emoji_kaomojis_joy"@),
        ("KaomojisLove"@, "emoji_kaomojis_love"@),
        ("KaomojisEmbarrassment"@, "emoji_kaomojis_embarrassment"@),
        ("KaomojisSympathy"@, "emoji_kaomojis_sympathy"@),
        ("KaomojisDissatisfaction"@, "emoji_kaomojis_dissatisfaction"@),
        ("KaomojisAnger"@, "emoji_kaomojis_anger"@),
        ("KaomojisSadness"@, "emoji_kaomojis_sadness"@),
        ("KaomojisPain"@, "emoji_kaomojis_pain"@),
        ("KaomojisFear"@, "emoji_kaomojis_fear"@),
        ("KaomojisIndifference"@, "emoji_kaomojis_indifference"@),
    ]
}

/// Kaomoji categories of the emoji tool's table, part 2.
pub open spec fn kaomoji_table_2() -> Seq<(Seq<char>, Seq<char>)> {
    seq![
        ("KaomojisConfusion"@, "emoji_kaomojis_confusion"@),
        ("KaomojisDoubt"@, "emoji_kaomojis_doubt"@),
        ("KaomojisSurprise"@, "emoji_kaomojis_surprise"@),
        ("KaomojisGreeting"@, "emoji_kaomojis_greeting"@),
        ("KaomojisHugging"@, "emoji_kaomojis_hugging"@),
        ("KaomojisWinking"@, "emoji_kaomojis_winking"@),
        ("KaomojisApologizing"@, "emoji_kaomojis_apologizing"@),
        ("KaomojisNosebleeding"@, "emoji_kaomojis_nosebleeding"@),
        ("KaomojisHiding"@, "emoji_kaomojis_hiding"@),
        ("KaomojisWriting"@, "emoji_kaomojis_writing"@),
    ]
}

/// Kaomoji categories of the emoji tool's table, part 3.
pub open spec fn kaomoji_table_3() -> Seq<(Seq<char>, Seq<char>)> {
    seq![
        ("KaomojisRunning"@, "emoji_kaomojis_running"@),
        ("KaomojisSleeping"@, "emoji_kaomojis_sleeping"@),
        ("KaomojisCat"@, "emoji_kaomojis_cat"@),
        ("KaomojisBear"@, "emoji_kaomojis_bear"@),
        ("KaomojisDog"@, "emoji_kaomojis_dog"@),
        ("KaomojisRabbit"@, "emoji_kaomojis_rabbit"@),
        ("KaomojisPig"@, "emoji_kaomojis_pig"@),
        ("KaomojisBird"@, "emoji_kaomojis_bird"@),
        ("KaomojisSpider"@, "emoji_kaomojis_spider"@),
        ("KaomojisFriends"@, "emoji_kaomojis_friends"@),
    ]
}

/// Kaomoji categories of the emoji tool's table, part 4.
pub open spec fn kaomoji_table_4() -> Seq<(Seq<char>, Seq<char>)> {
    seq![
        ("KaomojisEnemies"@, "emoji_kaomojis_enemies"@),
        ("KaomojisMagic"@, "emoji_kaomojis_magic"@),
        ("KaomojisFood"@, "emoji_kaomojis_food"@),
        ("KaomojisMusic"@, "emoji_kaomojis_music"@),
        ("KaomojisGames"@, "emoji_kaomojis_games"@),
        ("KaomojisFaces"@, "emoji_kaomojis_faces"@),
        ("KaomojisSpecial"@, "emoji_kaomojis_special"@),
    ]
}

/// The group-to-array table of the emoji tool, kaomoji categories included.
pub open spec fn emoji_table() -> Seq<(Seq<char>, Seq<char>)> {
    emoji_script_table() + kaomoji_table_1() + kaomoji_table_2() + kaomoji_table_3() + kaomoji_table_4()
}

/// The group-to-array table of the emoji script that reads `emoji-test.txt` alone.
pub fn emoji_script_arrays() -> (r: Vec<(String, String)>)
    ensures
        pair_views(r@) == emoji_script_table(),
{
    let mut t: Vec<(String, String)> = Vec::new();
    push_pair(&mut t, "Smileys & Emotion", "emoji_eight_smiley_people");
    push_pair(&mut t, "Animals & Nature", "emoji_eight_animals_nature");
    push_pair(&mut t, "Food & Drink", "emoji_eight_food_drink");
    push_pair(&mut t, "Travel & Places", "emoji_eight_travel_places");
    push_pair(&mut t, "Activities", "emoji_eight_activity");
    push_pair(&mut t, "Objects", "emoji_eight_objects");
    push_pair(&mut t, "Symbols", "emoji_eight_symbols");
    push_pair(&mut t, "Flags", "emoji_eight_flags");
    push_pair(&mut t, "Emoticons", "emoji_emoticons");
    push_pair(&mut t, "Smileys & Emotion - boring", "emoji_eight_smiley_people_boring");
    assert(pair_views(t@) =~= emoji_script_table());
    t
}

/// Kaomoji categories of the emoji tool's table, part 1.
fn kaomoji_arrays_1() -> (r: Vec<(String, String)>)
    ensures
        pair_views(r@) == kaomoji_table_1(),
{
    let mut t: Vec<(String, String)> = Vec::new();
    push_pair(&mut t, "KaomojisJoy", "emoji_kaomojis_joy");
    push_pair(&mut t, "KaomojisLove", "emoji_kaomojis_love");
    push_pair(&mut t, "KaomojisEmbarrassment", "emoji_kaomojis_embarrassment");
    push_pair(&mut t, "KaomojisSympathy", "emoji_kaomojis_sympathy");
    push_pair(&mut t, "KaomojisDissatisfaction", "emoji_kaomojis_dissatisfaction");
    push_pair(&mut t, "KaomojisAnger", "emoji_kaomojis_anger");
    push_pair(&mut t, "KaomojisSadness", "emoji_kaomojis_sadness");
    push_pair(&mut t, "KaomojisPain", "emoji_kaomojis_pain");
    push_pair(&mut t, "KaomojisFear", "emoji_kaomojis_fear");
    push_pair(&mut t, "KaomojisIndifference", "emoji_kaomojis_indifference");
    assert(pair_views(t@) =~= kaomoji_table_1());
    t
}

/// Kaomoji categories of the emoji tool's table, part 2.
fn kaomoji_arrays_2() -> (r: Vec<(String, String)>)
    ensures
        pair_views(r@) == kaomoji_table_2(),
{
    let mut t: Vec<(String, String)> = Vec::new();
    push_pair(&mut t, "KaomojisConfusion", "emoji_kaomojis_confusion");
    push_pair(&mut t, "KaomojisDoubt", "emoji_kaomojis_doubt");
    push_pair(&mut t, "KaomojisSurprise", "emoji_kaomojis_surprise");
    push_pair(&mut t, "KaomojisGreeting", "emoji_kaomojis_greeting");
    push_pair(&mut t, "KaomojisHugging", "emoji_kaomojis_hugging");
    push_pair(&mut t, "KaomojisWinking", "emoji_kaomojis_winking");
    push_pair(&mut t, "KaomojisApologizing", "emoji_kaomojis_apologizing");
    push_pair(&mut t, "KaomojisNosebleeding", "emoji_kaomojis_nosebleeding");
    push_pair(&mut t, "KaomojisHiding", "emoji_kaomojis_hiding");
    push_pair(&mut t, "KaomojisWriting", "emoji_kaomojis_writing");
    assert(pair_views(t@) =~= kaomoji_table_2());
    t
}

/// Kaomoji categories of the emoji tool's table, part 3.
fn kaomoji_arrays_3() -> (r: Vec<(String, String)>)
    ensures
        pair_views(r@) == kaomoji_table_3(),
{
    let mut t: Vec<(String, String)> = Vec::new();
    push_pair(&mut t, "KaomojisRunning", "emoji_kaomojis_running");
    push_pair(&mut t, "KaomojisSleeping", "emoji_kaomojis_sleeping");
    push_pair(&mut t, "KaomojisCat", "emoji_kaomojis_cat");
    push_pair(&mut t, "KaomojisBear", "emoji_kaomojis_bear");
    push_pair(&mut t, "KaomojisDog", "emoji_kaomojis_dog");
    push_pair(&mut t, "KaomojisRabbit", "emoji_kaomojis_rabbit");
    push_pair(&mut t, "KaomojisPig", "emoji_kaomojis_pig");
    push_pair(&mut t, "KaomojisBird", "emoji_kaomojis_bird");
    push_pair(&mut t, "KaomojisSpider", "emoji_kaomojis_spider");
    push_pair(&mut t, "KaomojisFriends", "emoji_kaomojis_friends");
    assert(pair_views(t@) =~= kaomoji_table_3());
    t
}

/// Kaomoji categories of the emoji tool's table, part 4.
fn kaomoji_arrays_4() -> (r: Vec<(String, String)>)
    ensures
        pair_views(r@) == kaomoji_table_4(),
{
    let mut t: Vec<(String, String)> = Vec::new();
    push_pair(&mut t, "KaomojisEnemies", "emoji_kaomojis_enemies");
    push_pair(&mut t, "KaomojisMagic", "emoji_kaomojis_magic");
    push_pair(&mut t, "KaomojisFood", "emoji_kaomojis_food");
    push_pair(&mut t, "KaomojisMusic", "emoji_kaomojis_music");
    push_pair(&mut t, "KaomojisGames", "emoji_kaomojis_games");
    push_pair(&mut t, "KaomojisFaces", "emoji_kaomojis_faces");
    push_pair(&mut t, "KaomojisSpecial", "emoji_kaomojis_special");
    assert(pair_views(t@) =~= kaomoji_table_4());
    t
}

/// The group-to-array table of the emoji tool, kaomoji categories included.
pub fn emoji_arrays() -> (r: Vec<(String, String)>)
    ensures
        pair_views(r@) == emoji_table(),
{
    let mut t = emoji_script_arrays();
    append_pairs(&mut t, kaomoji_arrays_1());
    append_pairs(&mut t, kaomoji_arrays_2());
    append_pairs(&mut t, kaomoji_arrays_3());
    append_pairs(&mut t, kaomoji_arrays_4());
    t
}

} // verus!
