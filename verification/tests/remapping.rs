use keymap::{
    map_ctrl_binding, map_ctrl_binding_with, map_ctrl_to_cmd, parse_key_sequence, parse_one_key,
    ArgEntry, ArgValue, KeyBinding, NonControlPolicy, MODIFIER_COMMAND, MODIFIER_SHIFT,
};

fn binding(chord: &str, command: &str) -> KeyBinding {
    KeyBinding {
        keys: parse_key_sequence(chord),
        command: String::from(command),
        when: None,
        args: None,
    }
}

#[test]
fn remap_emits_disabled_and_transformed_copies() {
    let out = map_ctrl_binding(&binding("ctrl+k", "foo"));
    assert_eq!(out.len(), 2);
    assert_eq!(out[0].keys.display(), "ctrl+k");
    assert_eq!(out[0].command, "-foo");
    assert_eq!(out[1].keys.display(), "meta+k");
    assert_eq!(out[1].command, "foo");
}

#[test]
fn remap_does_not_double_the_disable_marker() {
    let out = map_ctrl_binding(&binding("ctrl+k", "-foo"));
    assert_eq!(out.len(), 2);
    assert_eq!(out[0].command, "-foo");
    assert_eq!(out[1].command, "-foo");
}

#[test]
fn remap_leaves_chord_with_command_already_present_unchanged() {
    let out = map_ctrl_binding(&binding("meta+ctrl+k", "foo"));
    assert_eq!(out.len(), 2);
    assert_eq!(out[0].keys.display(), "meta+ctrl+k");
    assert_eq!(out[0].command, "-foo");
    assert_eq!(out[1].keys.display(), "meta+ctrl+k");
    assert_eq!(out[1].command, "foo");
}

#[test]
fn remap_drops_binding_without_control() {
    let out = map_ctrl_binding(&binding("shift+k", "foo"));
    assert_eq!(out.len(), 0);
}

#[test]
fn remap_swaps_both_chords_independently() {
    let out = map_ctrl_binding(&binding("ctrl+k ctrl+s", "foo"));
    assert_eq!(out.len(), 2);
    assert_eq!(out[1].keys.display(), "meta+k meta+s");
}

#[test]
fn remap_leaves_second_chord_without_control_unchanged() {
    let out = map_ctrl_binding(&binding("ctrl+k a", "foo"));
    assert_eq!(out[1].keys.display(), "meta+k a");
}

#[test]
fn remap_leaves_second_chord_with_both_modifiers_unchanged() {
    let out = map_ctrl_binding(&binding("ctrl+k meta+ctrl+s", "foo"));
    assert_eq!(out[1].keys.display(), "meta+k meta+ctrl+s");
}

#[test]
fn remap_passes_context_and_args_through() {
    let args = ArgValue::Obj(vec![
        ArgEntry { key: String::from("how"), value: ArgValue::Str(String::from("jump")) },
        ArgEntry { key: String::from("count"), value: ArgValue::Num(String::from("2.5")) },
        ArgEntry {
            key: String::from("flags"),
            value: ArgValue::Arr(vec![ArgValue::Bool(true), ArgValue::Null]),
        },
    ]);
    let kb = KeyBinding {
        keys: parse_key_sequence("ctrl+p"),
        command: String::from("jumpTo"),
        when: Some(String::from("editorFocus")),
        args: Some(args.duplicate()),
    };
    let out = map_ctrl_binding(&kb);
    assert_eq!(out.len(), 2);
    for derived in &out {
        assert_eq!(derived.when.as_deref(), Some("editorFocus"));
        assert_eq!(derived.args.as_ref().expect("args kept"), &args);
    }
}

#[test]
fn copy_disabled_is_idempotent() {
    let once = binding("ctrl+k", "foo").copy_disabled();
    let twice = once.copy_disabled();
    assert_eq!(once.command, "-foo");
    assert_eq!(twice.command, "-foo");
}

#[test]
fn has_control_looks_only_at_first_chord() {
    assert!(binding("ctrl+k", "foo").has_control());
    assert!(!binding("shift+k ctrl+s", "foo").has_control());
}

#[test]
fn map_ctrl_to_cmd_swaps_control_for_command() {
    let swapped = map_ctrl_to_cmd(&parse_one_key("ctrl+shift+t")).expect("always present");
    assert_eq!(swapped.modifiers.bits, MODIFIER_COMMAND | MODIFIER_SHIFT);
    assert_eq!(swapped.key, "t");
}

#[test]
fn map_ctrl_to_cmd_keeps_other_chords() {
    let plain = parse_one_key("shift+t");
    let kept = map_ctrl_to_cmd(&plain).expect("always present");
    assert_eq!(kept, plain);
}

#[test]
fn keep_policy_passes_non_control_bindings_through() {
    let out = map_ctrl_binding_with(&binding("shift+k", "foo"), NonControlPolicy::Keep);
    assert_eq!(out.len(), 1);
    assert_eq!(out[0].keys.display(), "shift+k");
    assert_eq!(out[0].command, "foo");
}

#[test]
fn drop_policy_matches_the_plain_remapper() {
    for (chord, command) in [("shift+k", "foo"), ("ctrl+k", "foo"), ("meta+ctrl+k", "-bar")] {
        let plain = map_ctrl_binding(&binding(chord, command));
        let with = map_ctrl_binding_with(&binding(chord, command), NonControlPolicy::Drop);
        assert_eq!(with.len(), plain.len());
        for (a, b) in with.iter().zip(plain.iter()) {
            assert_eq!(a.keys.display(), b.keys.display());
            assert_eq!(a.command, b.command);
        }
    }
}

#[test]
fn keep_policy_still_expands_control_bindings() {
    let out = map_ctrl_binding_with(&binding("ctrl+k", "foo"), NonControlPolicy::Keep);
    assert_eq!(out.len(), 2);
    assert_eq!(out[0].command, "-foo");
    assert_eq!(out[1].keys.display(), "meta+k");
}
