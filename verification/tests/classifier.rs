use ttyrec_log::classifier::{
    classify_cleaned, classify_keystroke, classify_message, clean_line,
    describe_single_char_action, failed_action_in, is_useful, looks_useful, match_failed_action,
    should_exclude_line,
};

#[test]
fn narration_is_useful() {
    assert!(looks_useful("You see here a scroll."));
    assert!(looks_useful("The door opens."));
    assert!(looks_useful("This door is locked."));
    assert!(looks_useful("There is a staircase down here."));
    assert!(looks_useful("  You feel lucky.  "));
    assert!(looks_useful("Suddenly you hear a shriek."));
    assert!(looks_useful("Do you want to swap places?"));
    assert!(looks_useful("There is a newt corpse here; eat it?"));
    assert!(looks_useful("What do you want to eat? [abc or ?*]"));
    assert!(looks_useful("In which direction?"));
    assert!(looks_useful("Never quaff from a sink."));
    assert!(looks_useful("A jackal corpse."));
    assert!(looks_useful("zap what?"));
    assert!(looks_useful("Cast which spell?"));
    assert!(looks_useful("Zap which spell?"));
    assert!(looks_useful("Sadly, you don't know that."));
    assert!(looks_useful("Alas, you don't have it."));
}

#[test]
fn matching_is_case_insensitive() {
    assert!(looks_useful("YOU SEE HERE A SCROLL."));
    assert!(looks_useful("yOu hit the newt."));
    assert!(looks_useful("A CORPSE"));
}

#[test]
fn other_text_is_not_useful() {
    assert!(!looks_useful(""));
    assert!(!looks_useful("   "));
    assert!(!looks_useful("Hello world"));
    assert!(!looks_useful("It hits!"));
    assert!(!looks_useful("Your sword glows."));
    assert!(!looks_useful("Then nothing."));
    assert!(!looks_useful("Thereis"));
}

#[test]
fn short_text_is_not_useful() {
    assert!(!looks_useful("a"));
    assert!(!looks_useful("you"));
    assert!(!looks_useful("  the  "));
    assert!(!looks_useful("\u{e9}\u{e9}"));
}

#[test]
fn inventory_headers_are_never_useful() {
    for header in [
        "weapons",
        "armor",
        "rings",
        "wands",
        "scrolls",
        "potions",
        "food",
        "tools",
        "miscellaneous",
    ] {
        assert!(!looks_useful(header));
        assert!(!looks_useful(&header.to_uppercase()));
        assert!(!looks_useful(&format!("  {}\t", header)));
    }
    assert!(!looks_useful("Weapons"));
    assert!(!looks_useful("WEAPONS"));
    assert!(!looks_useful("Miscellaneous"));
}

#[test]
fn header_rows_produce_no_message() {
    for row in ["Weapons", "weapons", "WEAPONS", "  Weapons--More--", "Armor---", "Food", "tOOLS"] {
        assert_eq!(classify_message(row), None, "{:?}", row);
    }
}

#[test]
fn inventory_entries_are_not_useful() {
    assert!(!looks_useful("a - a long sword (weapon in hand)"));
    assert!(!looks_useful("y - you see a corpse"));
    assert!(!looks_useful("  Z - the thing"));
    assert!(looks_useful("you - the thing"));
}

#[test]
fn prompts_are_not_useful() {
    assert!(!looks_useful("You really attack? [ynq] (n)"));
    assert!(!looks_useful("You want to call it what? [cn or ?*]"));
    assert!(!looks_useful("You die? [ynqq]"));
    assert!(!looks_useful("You see more? [ynaq]"));
    assert!(!looks_useful("You see more? [ynaq?]"));
    assert!(!looks_useful("You can stop (q)"));
    assert!(looks_useful("You really attack? [YNQ] (n)"));
    assert!(looks_useful("You can stop (Q)"));
}

#[test]
fn usefulness_from_trimmed_and_folded_text() {
    assert!(is_useful("You see", "you see"));
    assert!(is_useful("XXXX", "the end"));
    assert!(!is_useful("XXX", "the end"));
    assert!(!is_useful("What?", "weapons"));
    assert!(!is_useful("a - b", "you see"));
    assert!(!is_useful("x[ynq]", "you see"));
    assert!(!is_useful("You see", "YOU SEE"));
    assert!(is_useful("....", "a corpse"));
    assert!(!is_useful("....", "...."));
}

#[test]
fn failed_actions_are_recognised() {
    assert_eq!(
        match_failed_action("You don't have anything to drink."),
        Some("You tried to drink something you didn't have".to_string())
    );
    assert_eq!(
        match_failed_action("You don't know any spells right now."),
        Some("You tried to cast a spell, but alas you didn't know any".to_string())
    );
    assert_eq!(
        match_failed_action("You don't have anything to zap."),
        Some("You tried to zap a wand that was not in your inventory".to_string())
    );
    assert_eq!(
        match_failed_action("YOU DON'T HAVE ANYTHING TO ZAP"),
        Some("You tried to zap a wand that was not in your inventory".to_string())
    );
    assert_eq!(match_failed_action("You don't have anything to eat."), None);
    assert_eq!(match_failed_action(""), None);
}

#[test]
fn earlier_failure_rules_win() {
    assert_eq!(
        match_failed_action("don't have anything to zap, don't have anything to drink"),
        Some("You tried to drink something you didn't have".to_string())
    );
    assert_eq!(
        match_failed_action("don't have anything to zap; don't know any spells"),
        Some("You tried to cast a spell, but alas you didn't know any".to_string())
    );
    assert_eq!(
        failed_action_in("DON'T KNOW ANY SPELLS"),
        None
    );
    assert_eq!(
        failed_action_in("you don't know any spells"),
        Some("You tried to cast a spell, but alas you didn't know any".to_string())
    );
}

#[test]
fn single_characters_have_descriptions() {
    assert_eq!(describe_single_char_action('o'), Some("You try to open something"));
    assert_eq!(describe_single_char_action('s'), Some("You spent time searching"));
    assert_eq!(describe_single_char_action('Z'), Some("You cast a spell"));
    assert_eq!(describe_single_char_action('z'), Some("You zap a wand"));
    assert_eq!(describe_single_char_action('O'), None);
    assert_eq!(describe_single_char_action('S'), None);
    assert_eq!(describe_single_char_action('q'), None);
    assert_eq!(describe_single_char_action(' '), None);
}

#[test]
fn keystrokes_are_single_byte_payloads() {
    assert_eq!(classify_keystroke(b"s"), Some("You spent time searching"));
    assert_eq!(classify_keystroke(b"o"), Some("You try to open something"));
    assert_eq!(classify_keystroke(b"Z"), Some("You cast a spell"));
    assert_eq!(classify_keystroke(b"z"), Some("You zap a wand"));
    assert_eq!(classify_keystroke(b"x"), None);
    assert_eq!(classify_keystroke(b""), None);
    assert_eq!(classify_keystroke(b"ss"), None);
    assert_eq!(classify_keystroke(b"s\n"), None);
    assert_eq!(classify_keystroke(&[0xf3]), None);
}

#[test]
fn cleaning_strips_marker_dashes_and_space() {
    assert_eq!(clean_line("You see here a scroll.--More--"), "You see here a scroll.");
    assert_eq!(clean_line("  hello  "), "hello");
    assert_eq!(clean_line("You see--"), "You see");
    assert_eq!(clean_line("You see --"), "You see");
    assert_eq!(clean_line("  text --  "), "text --");
    assert_eq!(clean_line("--More--"), "");
    assert_eq!(clean_line("a--More--b--More----"), "ab");
    assert_eq!(clean_line("----More----"), "");
    assert_eq!(clean_line("--more--"), "--more");
    assert_eq!(clean_line("- x -"), "- x");
    assert_eq!(clean_line(""), "");
}

#[test]
fn excluded_prompt_is_matched_exactly() {
    assert!(should_exclude_line("What do you want to use or apply?"));
    assert!(should_exclude_line("What do you want to use or apply? [abc or ?*]"));
    assert!(!should_exclude_line("what do you want to use or apply?"));
    assert!(!should_exclude_line("What do you want to use or apply"));
    assert!(!should_exclude_line("What do you want to eat?"));
    assert!(!should_exclude_line(""));
}

#[test]
fn messages_are_classified_in_order() {
    assert_eq!(classify_message(""), None);
    assert_eq!(classify_message("   --More--"), None);
    assert_eq!(classify_message("What do you want to use or apply? [abc or ?*]"), None);
    assert_eq!(
        classify_message("You don't have anything to drink.--More--"),
        Some("You tried to drink something you didn't have".to_string())
    );
    assert_eq!(
        classify_message("  You see here a scroll.--More--"),
        Some("You see here a scroll.".to_string())
    );
    assert_eq!(classify_message("You see here a scroll.---"), Some("You see here a scroll.".to_string()));
    assert_eq!(classify_message("Hello world"), None);
    assert_eq!(classify_message("a - you see"), None);
    assert_eq!(
        classify_message("a - you don't know any spells"),
        Some("You tried to cast a spell, but alas you didn't know any".to_string())
    );
}

#[test]
fn cleaned_messages_are_classified_with_their_folded_form() {
    assert_eq!(classify_cleaned("", "you see"), None);
    assert_eq!(classify_cleaned("What do you want to use or apply?", "you see"), None);
    assert_eq!(
        classify_cleaned("anything", "don't have anything to zap"),
        Some("You tried to zap a wand that was not in your inventory".to_string())
    );
    assert_eq!(classify_cleaned("The End", "the end"), Some("The End".to_string()));
    assert_eq!(classify_cleaned("The End", "THE END"), None);
    assert_eq!(classify_cleaned("Weapons", "weapons"), None);
}
