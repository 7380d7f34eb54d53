//! Event classification: decides which screen messages and keystrokes become
//! log lines, from ordered tables of literal patterns.

use crate::text::{
    byte_len, byte_len_at_least, chars_of, contains, has_prefix, has_substring, lowercase_of,
    remove_all, same_text, starts_with, string_of, strip_trailing, stripped_trailing, text_of,
    trim, trimmed, without,
};
use vstd::prelude::*;

verus! {

/// The character sequences of a table of literals.
pub open spec fn entries(table: Seq<&'static str>) -> Seq<Seq<char>> {
    Seq::new(table.len(), |i: int| table[i]@)
}

/// Whether `s` is equal to an entry of `table`.
pub open spec fn any_equal(s: Seq<char>, table: Seq<Seq<char>>) -> bool {
    exists|i: int| 0 <= i < table.len() && #[trigger] table[i] == s
}

/// Whether `s` starts with an entry of `table`.
pub open spec fn any_prefix(s: Seq<char>, table: Seq<Seq<char>>) -> bool {
    exists|i: int| 0 <= i < table.len() && starts_with(s, #[trigger] table[i])
}

/// Whether an entry of `table` stands somewhere in `s`.
pub open spec fn any_contained(s: Seq<char>, table: Seq<Seq<char>>) -> bool {
    exists|i: int| 0 <= i < table.len() && contains(s, #[trigger] table[i])
}

fn equals_any(v: &Vec<char>, table: &Vec<&'static str>) -> (b: bool)
    ensures
        b == any_equal(v@, entries(table@)),
{
    let mut i: usize = 0;
    while i < table.len()
        invariant
            i <= table.len(),
            forall|j: int| 0 <= j < i ==> entries(table@)[j] != v@,
        decreases table.len() - i,
    {
        let p = chars_of(table[i]);
        if same_text(v, &p) {
            assert(entries(table@)[i as int] == v@);
            return true;
        }
        i += 1;
    }
    false
}

fn starts_with_any(v: &Vec<char>, table: &Vec<&'static str>) -> (b: bool)
    ensures
        b == any_prefix(v@, entries(table@)),
{
    let mut i: usize = 0;
    while i < table.len()
        invariant
            i <= table.len(),
            forall|j: int| 0 <= j < i ==> !starts_with(v@, entries(table@)[j]),
        decreases table.len() - i,
    {
        let p = chars_of(table[i]);
        if has_prefix(v, &p) {
            assert(starts_with(v@, entries(table@)[i as int]));
            return true;
        }
        i += 1;
    }
    false
}

fn contains_any(v: &Vec<char>, table: &Vec<&'static str>) -> (b: bool)
    ensures
        b == any_contained(v@, entries(table@)),
{
    let mut i: usize = 0;
    while i < table.len()
        invariant
            i <= table.len(),
            forall|j: int| 0 <= j < i ==> !contains(v@, entries(table@)[j]),
        decreases table.len() - i,
    {
        let p = chars_of(table[i]);
        if has_substring(v, &p) {
            assert(contains(v@, entries(table@)[i as int]));
            return true;
        }
        i += 1;
    }
    false
}

/// Inventory category headers, in lower case; a line equal to one is noise.
pub open spec fn inventory_headers() -> Seq<Seq<char>> {
    seq![
        "weapons"@,
        "armor"@,
        "rings"@,
        "wands"@,
        "scrolls"@,
        "potions"@,
        "food"@,
        "tools"@,
        "miscellaneous"@,
    ]
}

/// Fragments of interactive prompts; a line that holds one is noise.
pub open spec fn prompt_fragments() -> Seq<Seq<char>> {
    seq!["[ynq]"@, "[cn or ?*]"@, "[ynqq]"@, "[ynaq]"@, "[ynaq?]"@, "(q)"@]
}

/// Lower-case openings of narrative lines.
pub open spec fn lead_ins() -> Seq<Seq<char>> {
    seq!["you "@, "the "@, "this "@, "there is"@]
}

/// Lower-case fragments of narrative lines.
pub open spec fn keywords() -> Seq<Seq<char>> {
    seq![
        "you see"@,
        "you feel"@,
        "you hear"@,
        "swap places"@,
        "want to"@,
        "eat it"@,
        "zap what"@,
        "zap which spell"@,
        "cast which spell"@,
        "in which direction"@,
        "quaff"@,
        "what do you want"@,
        "corpse"@,
        "you don't have"@,
        "you don't know"@,
    ]
}

/// Prompts whose line is never logged.
pub open spec fn excluded_prompts() -> Seq<Seq<char>> {
    seq!["What do you want to use or apply?"@]
}

fn inventory_header_table() -> (t: Vec<&'static str>)
    ensures
        entries(t@) == inventory_headers(),
{
    let t = vec![
        "weapons",
        "armor",
        "rings",
        "wands",
        "scrolls",
        "potions",
        "food",
        "tools",
        "miscellaneous",
    ];
    assert(entries(t@) =~= inventory_headers());
    t
}

fn prompt_fragment_table() -> (t: Vec<&'static str>)
    ensures
        entries(t@) == prompt_fragments(),
{
    let t = vec!["[ynq]", "[cn or ?*]", "[ynqq]", "[ynaq]", "[ynaq?]", "(q)"];
    assert(entries(t@) =~= prompt_fragments());
    t
}

fn lead_in_table() -> (t: Vec<&'static str>)
    ensures
        entries(t@) == lead_ins(),
{
    let t = vec!["you ", "the ", "this ", "there is"];
    assert(entries(t@) =~= lead_ins());
    t
}

fn keyword_table() -> (t: Vec<&'static str>)
    ensures
        entries(t@) == keywords(),
{
    let t = vec![
        "you see",
        "you feel",
        "you hear",
        "swap places",
        "want to",
        "eat it",
        "zap what",
        "zap which spell",
        "cast which spell",
        "in which direction",
        "quaff",
        "what do you want",
        "corpse",
        "you don't have",
        "you don't know",
    ];
    assert(entries(t@) =~= keywords());
    t
}

fn excluded_prompt_table() -> (t: Vec<&'static str>)
    ensures
        entries(t@) == excluded_prompts(),
{
    let t = vec!["What do you want to use or apply?"];
    assert(entries(t@) =~= excluded_prompts());
    t
}

/// Whether `t` has the shape of an inventory entry: a letter, a space, a dash.
pub open spec fn inventory_entry(t: Seq<char>) -> bool {
    t.len() > 2 && t[1] == ' ' && t[2] == '-'
}

/// Whether a message is worth logging, given the message without
/// surrounding white space and its lower-case form.
pub open spec fn useful(trimmed: Seq<char>, lower: Seq<char>) -> bool {
    &&& byte_len(trimmed) >= 4
    &&& !any_equal(lower, inventory_headers())
    &&& !inventory_entry(trimmed)
    &&& !any_contained(trimmed, prompt_fragments())
    &&& (any_prefix(lower, lead_ins()) || any_contained(lower, keywords()))
}

/// Decides whether a message is worth logging from the message without
/// surrounding white space and its lower-case form.
pub fn is_useful(trimmed: &str, lower: &str) -> (b: bool)
    ensures
        b == useful(trimmed@, lower@),
{
    let text = chars_of(trimmed);
    let folded = chars_of(lower);
    if !byte_len_at_least(&text, 4) {
        return false;
    }
    if equals_any(&folded, &inventory_header_table()) {
        return false;
    }
    if text.len() > 2 && text[1] == ' ' && text[2] == '-' {
        return false;
    }
    if contains_any(&text, &prompt_fragment_table()) {
        return false;
    }
    starts_with_any(&folded, &lead_in_table()) || contains_any(&folded, &keyword_table())
}

/// Decides whether a screen row holds a message worth logging: long enough,
/// no inventory header or entry, no prompt, and with a narrative opening or
/// fragment in its lower-case form.
pub fn looks_useful(row: &str) -> (b: bool)
    ensures
        b == useful(trim(row@), lowercase_of(trim(row@))),
{
    let text = string_of(&trimmed(&chars_of(row)));
    let lower = text.as_str().to_lowercase();
    is_useful(text.as_str(), lower.as_str())
}

/// Phrases that tell of an action without a valid target, each with the
/// description logged in its place. Earlier rules win.
pub open spec fn failure_rules() -> Seq<(Seq<char>, Seq<char>)> {
    seq![
        ("don't have anything to drink"@, "You tried to drink something you didn't have"@),
        ("don't know any spells"@, "You tried to cast a spell, but alas you didn't know any"@),
        (
            "don't have anything to zap"@,
            "You tried to zap a wand that was not in your inventory"@,
        ),
    ]
}

/// The description of the first rule whose phrase stands in `lower`.
pub open spec fn first_rule(lower: Seq<char>, rules: Seq<(Seq<char>, Seq<char>)>) -> Option<
    Seq<char>,
>
    decreases rules.len(),
{
    if rules.len() == 0 {
        None
    } else if contains(lower, rules[0].0) {
        Some(rules[0].1)
    } else {
        first_rule(lower, rules.drop_first())
    }
}

/// The description that replaces a message whose lower-case form is `lower`,
/// if it tells of a failed action.
pub open spec fn failed_action(lower: Seq<char>) -> Option<Seq<char>> {
    first_rule(lower, failure_rules())
}

/// The phrases and descriptions of a table of rules.
pub open spec fn rule_entries(table: Seq<(&'static str, &'static str)>) -> Seq<
    (Seq<char>, Seq<char>),
> {
    Seq::new(table.len(), |i: int| (table[i].0@, table[i].1@))
}

fn failure_rule_table() -> (t: Vec<(&'static str, &'static str)>)
    ensures
        rule_entries(t@) == failure_rules(),
{
    let t = vec![
        ("don't have anything to drink", "You tried to drink something you didn't have"),
        ("don't know any spells", "You tried to cast a spell, but alas you didn't know any"),
        ("don't have anything to zap", "You tried to zap a wand that was not in your inventory"),
    ];
    assert(rule_entries(t@) =~= failure_rules());
    t
}

/// Finds the description for a failed action from the lower-case form of a
/// message.
pub fn failed_action_in(lower: &str) -> (r: Option<String>)
    ensures
        text_of(r) == failed_action(lower@),
{
    let folded = chars_of(lower);
    let table = failure_rule_table();
    let mut i: usize = 0;
    assert(rule_entries(table@).skip(0) == rule_entries(table@));
    while i < table.len()
        invariant
            i <= table.len(),
            folded@ == lower@,
            rule_entries(table@) == failure_rules(),
            failed_action(lower@) == first_rule(lower@, rule_entries(table@).skip(i as int)),
        decreases table.len() - i,
    {
        let ghost rest = rule_entries(table@).skip(i as int);
        assert(rest[0] == (table@[i as int].0@, table@[i as int].1@));
        assert(rest.drop_first() == rule_entries(table@).skip(i + 1));
        let phrase = chars_of(table[i].0);
        if has_substring(&folded, &phrase) {
            return Some(string_of(&chars_of(table[i].1)));
        }
        i += 1;
    }
    None
}

/// Recognises a message that tells of an action without a valid target and
/// gives the description logged in its place.
pub fn match_failed_action(row: &str) -> (r: Option<String>)
    ensures
        text_of(r) == failed_action(lowercase_of(row@)),
{
    let lower = row.to_lowercase();
    failed_action_in(lower.as_str())
}

/// The description logged for a keystroke that is a command on its own.
pub open spec fn keystroke_description(c: char) -> Option<Seq<char>> {
    if c == 'o' {
        Some("You try to open something"@)
    } else if c == 's' {
        Some("You spent time searching"@)
    } else if c == 'Z' {
        Some("You cast a spell"@)
    } else if c == 'z' {
        Some("You zap a wand"@)
    } else {
        None
    }
}

/// Looks up the description of a single-character command.
pub fn describe_single_char_action(c: char) -> (r: Option<&'static str>)
    ensures
        match r {
            Some(s) => keystroke_description(c) == Some(s@),
            None => keystroke_description(c) is None,
        },
{
    match c {
        'o' => Some("You try to open something"),
        's' => Some("You spent time searching"),
        'Z' => Some("You cast a spell"),
        'z' => Some("You zap a wand"),
        _ => None,
    }
}

/// A message row without the pending-output marker, the dashes that end
/// it, and surrounding white space.
pub open spec fn cleaned(line: Seq<char>) -> Seq<char> {
    trim(strip_trailing(remove_all(line, "--More--"@), '-'))
}

/// Cleans a message row: takes out every `--More--` marker, then the dashes
/// at the end, then surrounding white space.
pub fn clean_line(line: &str) -> (r: String)
    ensures
        r@ == cleaned(line@),
{
    let marker = chars_of("--More--");
    let unmarked = without(&chars_of(line), &marker);
    let undashed = stripped_trailing(&unmarked, '-');
    string_of(&trimmed(&undashed))
}

/// Tests whether a cleaned message holds a prompt that is never logged.
pub fn should_exclude_line(line: &str) -> (b: bool)
    ensures
        b == any_contained(line@, excluded_prompts()),
{
    contains_any(&chars_of(line), &excluded_prompt_table())
}

/// The body logged for a cleaned message `line` with lower-case form
/// `lower`: nothing for an empty or excluded line, the substituted
/// description for a failed action, else the line itself if it is useful.
pub open spec fn message_for(line: Seq<char>, lower: Seq<char>) -> Option<Seq<char>> {
    if line.len() == 0 || any_contained(line, excluded_prompts()) {
        None
    } else if failed_action(lower) is Some {
        failed_action(lower)
    } else if useful(line, lower) {
        Some(line)
    } else {
        None
    }
}

/// Classifies a cleaned message, given with its lower-case form.
pub fn classify_cleaned(line: &str, lower: &str) -> (r: Option<String>)
    ensures
        text_of(r) == message_for(line@, lower@),
{
    if line.is_empty() || should_exclude_line(line) {
        return None;
    }
    let failure = failed_action_in(lower);
    if failure.is_some() {
        return failure;
    }
    if is_useful(line, lower) {
        Some(string_of(&chars_of(line)))
    } else {
        None
    }
}

/// Classifies the top message row of the screen: cleans it and decides what
/// body, if any, is logged for it.
pub fn classify_message(row: &str) -> (r: Option<String>)
    ensures
        text_of(r) == message_for(cleaned(row@), lowercase_of(cleaned(row@))),
{
    let line = clean_line(row);
    let lower = line.as_str().to_lowercase();
    classify_cleaned(line.as_str(), lower.as_str())
}

/// The description logged for a frame that is a single command keystroke.
pub open spec fn keystroke_for(payload: Seq<u8>) -> Option<Seq<char>> {
    if payload.len() == 1 {
        keystroke_description(payload[0] as char)
    } else {
        None
    }
}

/// Classifies a frame's raw bytes as a command keystroke.
pub fn classify_keystroke(payload: &[u8]) -> (r: Option<&'static str>)
    ensures
        match r {
            Some(s) => keystroke_for(payload@) == Some(s@),
            None => keystroke_for(payload@) is None,
        },
{
    if payload.len() == 1 {
        describe_single_char_action(payload[0] as char)
    } else {
        None
    }
}

/// A text shorter than every phrase of `rules` matches none of them.
pub proof fn lemma_short_text_matches_no_rule(
    lower: Seq<char>,
    rules: Seq<(Seq<char>, Seq<char>)>,
)
    requires
        forall|i: int| 0 <= i < rules.len() ==> lower.len() < (#[trigger] rules[i]).0.len(),
    ensures
        first_rule(lower, rules) is None,
    decreases rules.len(),
{
    if rules.len() > 0 {
        assert(lower.len() < rules[0].0.len());
        assert(!contains(lower, rules[0].0));
        lemma_short_text_matches_no_rule(lower, rules.drop_first());
    }
}

/// A message whose lower-case form is an inventory header is never
/// logged, whatever the case it is written in: it tells of no failed
/// action, and it is not useful.
pub proof fn lemma_header_is_silent(line: Seq<char>, lower: Seq<char>)
    requires
        any_equal(lower, inventory_headers()),
    ensures
        failed_action(lower) is None,
        !useful(line, lower),
        message_for(line, lower) is None,
{
    reveal_strlit("weapons");
    reveal_strlit("armor");
    reveal_strlit("rings");
    reveal_strlit("wands");
    reveal_strlit("scrolls");
    reveal_strlit("potions");
    reveal_strlit("food");
    reveal_strlit("tools");
    reveal_strlit("miscellaneous");
    reveal_strlit("don't have anything to drink");
    reveal_strlit("don't know any spells");
    reveal_strlit("don't have anything to zap");
    let i = choose|i: int|
        0 <= i < inventory_headers().len() && #[trigger] inventory_headers()[i] == lower;
    assert(lower.len() <= 13);
    assert forall|k: int| 0 <= k < failure_rules().len() implies lower.len() < (
    #[trigger] failure_rules()[k]).0.len() by {
        assert(failure_rules()[k].0.len() >= 21);
    }
    lemma_short_text_matches_no_rule(lower, failure_rules());
}

} // verus!
