use keymap::{
    anykey, parse_key_sequence, parse_one_key, MODIFIER_COMMAND, MODIFIER_CONTROL,
    MODIFIER_OPTION, MODIFIER_SHIFT,
};

#[test]
fn parse_ctrl_shift_k() {
    let k = parse_one_key("ctrl+shift+k");
    assert_eq!(k.modifiers.bits, MODIFIER_CONTROL | MODIFIER_SHIFT);
    assert_eq!(k.key, "k");
}

#[test]
fn parse_command_aliases() {
    for token in ["cmd+k", "meta+k", "super+k", "win+k"] {
        let k = parse_one_key(token);
        assert_eq!(k.modifiers.bits, MODIFIER_COMMAND);
        assert_eq!(k.key, "k");
    }
}

#[test]
fn parse_is_case_insensitive() {
    let upper = parse_one_key("Ctrl+Shift+K");
    let lower = parse_one_key("ctrl+shift+k");
    assert_eq!(upper, lower);
}

#[test]
fn parse_folds_unicode_case() {
    let k = parse_one_key("ctrl+\u{d6}");
    assert_eq!(k.modifiers.bits, MODIFIER_CONTROL);
    assert_eq!(k.key, "\u{f6}");
    assert_eq!(parse_one_key("\u{d6}"), parse_one_key("\u{f6}"));
}

#[test]
fn unicode_chord_round_trips() {
    let once = parse_key_sequence("Ctrl+\u{d6} alt+\u{c9}");
    let again = parse_key_sequence(&once.display());
    assert_eq!(again, once);
}

#[test]
fn parse_alt_modifier() {
    let k = parse_one_key("alt+F4");
    assert_eq!(k.modifiers.bits, MODIFIER_OPTION);
    assert_eq!(k.key, "f4");
}

#[test]
fn last_non_modifier_piece_wins() {
    let k = parse_one_key("ctrl+a+b");
    assert_eq!(k.modifiers.bits, MODIFIER_CONTROL);
    assert_eq!(k.key, "b");
}

#[test]
fn unrecognized_modifier_folds_into_label() {
    let k = parse_one_key("altgr+x");
    assert_eq!(k.modifiers.bits, 0);
    assert_eq!(k.key, "x");
}

#[test]
fn missing_base_key_yields_empty_label() {
    let k = parse_one_key("ctrl+");
    assert_eq!(k.modifiers.bits, MODIFIER_CONTROL);
    assert_eq!(k.key, "");
}

#[test]
fn empty_sequence_yields_anykey() {
    let r = parse_key_sequence("");
    assert_eq!(r.first, anykey());
    assert!(r.second.is_none());
}

#[test]
fn two_chord_sequence() {
    let r = parse_key_sequence("ctrl+k ctrl+s");
    assert_eq!(r.first.modifiers.bits, MODIFIER_CONTROL);
    assert_eq!(r.first.key, "k");
    let second = r.second.expect("second chord");
    assert_eq!(second.modifiers.bits, MODIFIER_CONTROL);
    assert_eq!(second.key, "s");
}

#[test]
fn chords_past_the_second_are_discarded() {
    let r = parse_key_sequence("a b c");
    assert_eq!(r.first.key, "a");
    assert_eq!(r.second.expect("second chord").key, "b");
}

#[test]
fn whitespace_separators_are_flexible() {
    let r = parse_key_sequence("  ctrl+k\t ctrl+s ");
    assert_eq!(r.first.key, "k");
    assert_eq!(r.second.expect("second chord").key, "s");
}

#[test]
fn display_uses_canonical_modifier_order() {
    let k = parse_one_key("shift+ctrl+alt+meta+k");
    assert_eq!(k.display(), "meta+alt+ctrl+shift+k");
}

#[test]
fn display_of_sequence_joins_with_space() {
    let r = parse_key_sequence("ctrl+k ctrl+s");
    assert_eq!(r.display(), "ctrl+k ctrl+s");
}

#[test]
fn display_of_anykey_is_empty() {
    assert_eq!(anykey().display(), "");
}

#[test]
fn parse_display_parse_round_trip() {
    for chord in [
        "ctrl+shift+k",
        "Ctrl+K Ctrl+S",
        "CMD+up",
        "win+e alt+x",
        "k",
        "",
        "  a   b  c ",
        "ctrl+",
        "ctrl+a+b",
        "shift+ctrl+alt+meta+pageDown",
    ] {
        let once = parse_key_sequence(chord);
        let again = parse_key_sequence(&once.display());
        assert_eq!(again, once);
    }
}
