//! Parsing of chord text.  A chord token is lowercased and split into
//! `+`-delimited pieces; pieces naming modifiers turn those modifiers on,
//! and any other piece becomes the base key label, the last one winning.
//! A chord-sequence string is split on ASCII whitespace into tokens, of
//! which the first two become the chords of the sequence.

use vstd::prelude::*;
use crate::keys::{anykey, empty_key, Key, KeyRule, KeyV, RuleV};
use crate::modifiers::{
    alt_piece, cmd_piece, ctrl_piece, is_modifier_flag, meta_piece, set_flag, shift_piece,
    super_piece, win_piece, ModSet, MODIFIER_COMMAND, MODIFIER_CONTROL, MODIFIER_OPTION,
    MODIFIER_SHIFT,
};
use crate::split::{split_plus, split_plus_exec, split_ws, split_ws_exec, views_of};
use crate::text::{chars_eq_str, chars_to_string, lower_of, str_chars, to_lowercase};

verus! {

/// The modifier flag a `+`-delimited piece stands for, if any.  `super+`,
/// `cmd+`, `meta+` and `win+` all name the Command modifier.
pub open spec fn piece_flag(p: Seq<char>) -> Option<u32> {
    if p == ctrl_piece() {
        Some(MODIFIER_CONTROL)
    } else if p == shift_piece() {
        Some(MODIFIER_SHIFT)
    } else if p == super_piece() || p == cmd_piece() || p == meta_piece() || p == win_piece() {
        Some(MODIFIER_COMMAND)
    } else if p == alt_piece() {
        Some(MODIFIER_OPTION)
    } else {
        None
    }
}

/// The effect of one piece on a partly parsed chord.
pub open spec fn apply_piece(k: KeyV, p: Seq<char>) -> KeyV {
    match piece_flag(p) {
        Some(f) => KeyV { modifiers: set_flag(k.modifiers, f), ..k },
        None => KeyV { label: p, ..k },
    }
}

/// The pieces of a token applied in order.
pub open spec fn fold_pieces(k: KeyV, pieces: Seq<Seq<char>>) -> KeyV
    decreases pieces.len(),
{
    if pieces.len() == 0 {
        k
    } else {
        fold_pieces(apply_piece(k, pieces[0]), pieces.drop_first())
    }
}

/// The chord a single token parses to: the token is Unicode-lowercased,
/// split after each `+`, and the pieces are folded over the empty chord.
pub open spec fn parse_one_key_spec(s: Seq<char>) -> KeyV {
    fold_pieces(empty_key(), split_plus(lower_of(s)))
}

/// The chord sequence a string parses to: the first two whitespace-
/// separated tokens become the chords; further tokens are discarded, and
/// an empty token list yields the "any key" chord alone.
pub open spec fn parse_key_sequence_spec(s: Seq<char>) -> RuleV {
    let toks = split_ws(s);
    RuleV {
        first: if toks.len() >= 1 {
            parse_one_key_spec(toks[0])
        } else {
            empty_key()
        },
        second: if toks.len() >= 2 {
            Some(parse_one_key_spec(toks[1]))
        } else {
            None
        },
    }
}

/// The modifier flag a lowercased piece stands for, if any.
fn classify_piece(p: &Vec<char>) -> (r: Option<u32>)
    ensures
        r == piece_flag(p@),
{
    proof {
        reveal_strlit("ctrl+");
        reveal_strlit("shift+");
        reveal_strlit("super+");
        reveal_strlit("cmd+");
        reveal_strlit("meta+");
        reveal_strlit("win+");
        reveal_strlit("alt+");
        assert("ctrl+"@ =~= ctrl_piece());
        assert("shift+"@ =~= shift_piece());
        assert("super+"@ =~= super_piece());
        assert("cmd+"@ =~= cmd_piece());
        assert("meta+"@ =~= meta_piece());
        assert("win+"@ =~= win_piece());
        assert("alt+"@ =~= alt_piece());
    }
    if chars_eq_str(p, "ctrl+") {
        Some(MODIFIER_CONTROL)
    } else if chars_eq_str(p, "shift+") {
        Some(MODIFIER_SHIFT)
    } else if chars_eq_str(p, "super+") || chars_eq_str(p, "cmd+") || chars_eq_str(p, "meta+")
        || chars_eq_str(p, "win+") {
        Some(MODIFIER_COMMAND)
    } else if chars_eq_str(p, "alt+") {
        Some(MODIFIER_OPTION)
    } else {
        None
    }
}

/// Parse one chord token given as characters.
fn parse_token(t: &Vec<char>) -> (k: Key)
    ensures
        k@ == parse_one_key_spec(t@),
        k.modifiers.wf(),
{
    let text = chars_to_string(t);
    let lowered = to_lowercase(text.as_str());
    let low = str_chars(&lowered);
    let pieces = split_plus_exec(&low);
    let ghost ps = views_of(pieces@);
    let mut mods = ModSet::empty();
    let mut label: Vec<char> = Vec::new();
    let mut j: usize = 0;
    proof {
        assert(ps.skip(0) =~= ps);
    }
    while j < pieces.len()
        invariant
            j <= pieces.len(),
            mods.wf(),
            ps == views_of(pieces@),
            fold_pieces(empty_key(), ps) == fold_pieces(
                KeyV { modifiers: mods@, label: label@ },
                ps.skip(j as int),
            ),
        decreases pieces.len() - j,
    {
        let ghost pre = KeyV { modifiers: mods@, label: label@ };
        proof {
            assert(pieces@[j as int]@ == ps[j as int]);
        }
        match classify_piece(&pieces[j]) {
            Some(f) => {
                proof {
                    assert(is_modifier_flag(f));
                }
                mods = mods.insert(f);
            },
            None => {
                label = pieces[j].clone();
                proof {
                    assert(label@ =~= ps[j as int]);
                }
            },
        }
        proof {
            assert(KeyV { modifiers: mods@, label: label@ } == apply_piece(pre, ps[j as int]));
            assert(ps.skip(j as int)[0] == ps[j as int]);
            assert(ps.skip(j as int).drop_first() =~= ps.skip(j as int + 1));
        }
        j = j + 1;
    }
    proof {
        assert(ps.skip(pieces@.len() as int) =~= Seq::<Seq<char>>::empty());
    }
    Key { modifiers: mods, key: chars_to_string(&label) }
}

/// Parse one chord token, e.g. `"Ctrl+Shift+K"`.  The parser is total: a
/// piece naming no modifier becomes the base key label, the last such
/// piece winning, and a token without one yields an empty label.
pub fn parse_one_key(key: &str) -> (k: Key)
    ensures
        k@ == parse_one_key_spec(key@),
        k.modifiers.wf(),
{
    let cs = str_chars(key);
    parse_token(&cs)
}

/// Parse a chord-sequence string, e.g. `"ctrl+k ctrl+s"`: the first two
/// whitespace-separated tokens become the chords; further tokens are
/// silently discarded, and empty input yields the "any key" chord.
pub fn parse_key_sequence(code: &str) -> (r: KeyRule)
    ensures
        r@ == parse_key_sequence_spec(code@),
        r.wf(),
{
    let cs = str_chars(code);
    let toks = split_ws_exec(&cs);
    proof {
        if split_ws(cs@).len() >= 1 {
            assert(toks@[0]@ == views_of(toks@)[0]);
        }
        if split_ws(cs@).len() >= 2 {
            assert(toks@[1]@ == views_of(toks@)[1]);
        }
    }
    let first = if toks.len() >= 1 {
        parse_token(&toks[0])
    } else {
        anykey()
    };
    let second = if toks.len() >= 2 {
        Some(parse_token(&toks[1]))
    } else {
        None
    };
    KeyRule { first, second }
}

} // verus!
