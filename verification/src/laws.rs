//! The laws the library obeys: parsing an ASCII chord string, displaying
//! the result and parsing the display text again yields the same value as
//! the first parse; and disabling a command name is idempotent.

use vstd::prelude::*;
use crate::binding::disable_command_spec;
use crate::keys::{display_key_spec, display_rule_spec, empty_key, KeyV};
use crate::modifiers::{alt_piece, ctrl_piece, meta_piece, shift_piece, MODIFIER_COMMAND,
    MODIFIER_CONTROL, MODIFIER_OPTION, MODIFIER_SHIFT};
use crate::parse::{apply_piece, fold_pieces, parse_key_sequence_spec, parse_one_key_spec,
    piece_flag};
use crate::split::{char_in, is_ws_char, lemma_split_plus_pieces, lemma_split_plus_whole,
    lemma_split_ws_step, lemma_split_ws_tokens, lemma_split_ws_whole, plus_free_interior,
    plus_piece_ok, split_plus, split_ws, ws_free, ws_token_ok};
use crate::text::{ascii_chars, is_ascii_char, lemma_lower_ascii, lower_char_spec, lower_of,
    lower_spec};

verus! {

/// Disabling a command name twice is the same as disabling it once.
pub proof fn lemma_disable_idempotent(c: Seq<char>)
    ensures
        disable_command_spec(disable_command_spec(c)) == disable_command_spec(c),
{
    let d = disable_command_spec(c);
    assert(d.len() > 0 && d[0] == '-');
}

/// The shape every chord produced by the parser has: the label is
/// lowercase, contains `+` at most as its final character, and names no
/// modifier.
pub open spec fn canonical_key(k: KeyV) -> bool {
    &&& lower_spec(k.label) == k.label
    &&& plus_free_interior(k.label)
    &&& piece_flag(k.label) is None
}

/// A chord that displays to nonempty text: some modifier is present or
/// the label is nonempty.
pub open spec fn key_marked(k: KeyV) -> bool {
    ||| k.modifiers.shift
    ||| k.modifiers.control
    ||| k.modifiers.command
    ||| k.modifiers.option
    ||| k.label.len() > 0
}

/// Lowercasing does not change whether a character is whitespace.
proof fn lemma_lower_char_ws(c: char)
    ensures
        is_ws_char(lower_char_spec(c)) == is_ws_char(c),
{
    if 65 <= c as u32 && c as u32 <= 90 {
        assert(((c as u32 + 32) as u8) as char as u32 == c as u32 + 32);
        assert(' ' as u32 == 32 && '\t' as u32 == 9 && '\n' as u32 == 10 && '\u{c}' as u32 == 12
            && '\r' as u32 == 13);
    }
}

/// Folding a single piece is applying it.
proof fn lemma_fold_one(k: KeyV, p: Seq<char>)
    ensures
        fold_pieces(k, seq![p]) == apply_piece(k, p),
{
    let e = seq![p].drop_first();
    assert(e =~= Seq::<Seq<char>>::empty());
    assert(seq![p][0] == p);
    assert(fold_pieces(k, seq![p]) == fold_pieces(apply_piece(k, p), e));
    assert(fold_pieces(apply_piece(k, p), e) == apply_piece(k, p));
}

/// Folding a concatenation of piece lists folds them in order.
proof fn lemma_fold_append(k: KeyV, a: Seq<Seq<char>>, b: Seq<Seq<char>>)
    ensures
        fold_pieces(k, a + b) == fold_pieces(fold_pieces(k, a), b),
    decreases a.len(),
{
    if a.len() == 0 {
        assert(a + b =~= b);
    } else {
        assert((a + b)[0] == a[0]);
        assert((a + b).drop_first() =~= a.drop_first() + b);
        lemma_fold_append(apply_piece(k, a[0]), a.drop_first(), b);
    }
}

/// The label of a folded chord is the starting label or one of the folded
/// pieces, and in either case names no modifier once it came from a piece.
proof fn lemma_fold_label(k: KeyV, pieces: Seq<Seq<char>>)
    ensures
        fold_pieces(k, pieces).label == k.label || (exists|j: int|
            0 <= j < pieces.len() && fold_pieces(k, pieces).label == #[trigger] pieces[j]
                && piece_flag(pieces[j]) is None),
    decreases pieces.len(),
{
    if pieces.len() > 0 {
        let k1 = apply_piece(k, pieces[0]);
        let rest = pieces.drop_first();
        lemma_fold_label(k1, rest);
        let r = fold_pieces(k, pieces);
        assert(r == fold_pieces(k1, rest));
        if r.label == k1.label {
            if piece_flag(pieces[0]) is None && k1.label == pieces[0] {
                assert(0 <= 0 < pieces.len() && r.label == pieces[0] && piece_flag(
                    pieces[0],
                ) is None);
            }
        } else {
            let j = choose|j: int|
                0 <= j < rest.len() && fold_pieces(k1, rest).label == #[trigger] rest[j]
                    && piece_flag(rest[j]) is None;
            assert(pieces[j + 1] == rest[j]);
            assert(0 <= j + 1 < pieces.len() && r.label == pieces[j + 1] && piece_flag(
                pieces[j + 1],
            ) is None);
        }
    }
}

/// Folding at least one nonempty piece marks the chord.
proof fn lemma_fold_marked(k: KeyV, pieces: Seq<Seq<char>>)
    requires
        forall|j: int| 0 <= j < pieces.len() ==> (#[trigger] pieces[j]).len() > 0,
        key_marked(k) || pieces.len() > 0,
    ensures
        key_marked(fold_pieces(k, pieces)),
    decreases pieces.len(),
{
    if pieces.len() > 0 {
        let k1 = apply_piece(k, pieces[0]);
        assert(key_marked(k1));
        assert(forall|j: int|
            0 <= j < pieces.drop_first().len() ==> (#[trigger] pieces.drop_first()[j]).len()
                > 0);
        lemma_fold_marked(k1, pieces.drop_first());
    }
}

/// What the parser decides for each concrete modifier piece, and for the
/// empty label.
proof fn lemma_piece_flag_values()
    ensures
        piece_flag(crate::modifiers::ctrl_piece()) == Some(MODIFIER_CONTROL),
        piece_flag(crate::modifiers::shift_piece()) == Some(MODIFIER_SHIFT),
        piece_flag(crate::modifiers::meta_piece()) == Some(MODIFIER_COMMAND),
        piece_flag(crate::modifiers::alt_piece()) == Some(MODIFIER_OPTION),
        piece_flag(Seq::<char>::empty()) is None,
{
    let su = crate::modifiers::super_piece();
    let cm = crate::modifiers::cmd_piece();
    let wi = crate::modifiers::win_piece();
    assert(ctrl_piece()[0] == 'c' && shift_piece()[0] == 's' && su[0] == 's' && cm[0] == 'c'
        && meta_piece()[0] == 'm' && wi[0] == 'w' && alt_piece()[0] == 'a');
    assert(ctrl_piece()[1] == 't' && cm[1] == 'm' && shift_piece()[1] == 'h' && su[1] == 'u');
    assert(ctrl_piece().len() == 5 && shift_piece().len() == 6 && su.len() == 6 && cm.len() == 4
        && meta_piece().len() == 5 && wi.len() == 4 && alt_piece().len() == 4);
}

/// Every chord the token parser produces from an ASCII token is
/// canonical; its label is ASCII, whitespace-free when the token is, and
/// a nonempty token marks it.
proof fn lemma_parse_canonical(t: Seq<char>)
    requires
        ascii_chars(t),
    ensures
        canonical_key(parse_one_key_spec(t)),
        ascii_chars(parse_one_key_spec(t).label),
        ws_free(t) ==> ws_free(parse_one_key_spec(t).label),
        t.len() > 0 ==> key_marked(parse_one_key_spec(t)),
{
    let low = lower_spec(t);
    assert(lower_of(t) == low);
    let pieces = split_plus(low);
    let k = parse_one_key_spec(t);
    crate::text::lemma_lower_idempotent(t);
    lemma_lower_ascii(t);
    lemma_split_plus_pieces(low);
    lemma_fold_label(empty_key(), pieces);
    lemma_piece_flag_values();
    if k.label == empty_key().label {
        assert(lower_spec(k.label) =~= k.label);
    } else {
        let j = choose|j: int|
            0 <= j < pieces.len() && k.label == #[trigger] pieces[j] && piece_flag(
                pieces[j],
            ) is None;
        assert(plus_piece_ok(low, pieces[j]));
        assert forall|i: int| 0 <= i < k.label.len() implies lower_char_spec(k.label[i])
            == k.label[i] by {
            assert(char_in(k.label[i], low));
            let a = choose|a: int| 0 <= a < low.len() && k.label[i] == low[a];
            assert(lower_char_spec(low[a]) == low[a]);
        }
        assert(lower_spec(k.label) =~= k.label);
        assert forall|i: int| 0 <= i < k.label.len() implies is_ascii_char(
            #[trigger] k.label[i],
        ) by {
            assert(char_in(k.label[i], low));
            let a = choose|a: int| 0 <= a < low.len() && k.label[i] == low[a];
            assert(is_ascii_char(low[a]));
        }
        if ws_free(t) {
            assert forall|i: int| 0 <= i < k.label.len() implies !is_ws_char(k.label[i]) by {
                assert(char_in(k.label[i], low));
                let a = choose|a: int| 0 <= a < low.len() && k.label[i] == low[a];
                assert(low[a] == lower_char_spec(t[a]));
                lemma_lower_char_ws(t[a]);
            }
        }
    }
    if t.len() > 0 {
        assert(low.len() > 0);
        assert(pieces.len() > 0);
        assert forall|j: int| 0 <= j < pieces.len() implies (#[trigger] pieces[j]).len() > 0 by {
            assert(plus_piece_ok(low, pieces[j]));
        }
        lemma_fold_marked(empty_key(), pieces);
    }
}

/// Whitespace-freedom is preserved by concatenation.
proof fn lemma_ws_free_append(a: Seq<char>, b: Seq<char>)
    requires
        ws_free(a),
        ws_free(b),
    ensures
        ws_free(a + b),
{
    assert forall|i: int| 0 <= i < (a + b).len() implies !is_ws_char((a + b)[i]) by {
        if i < a.len() {
            assert((a + b)[i] == a[i]);
        } else {
            assert((a + b)[i] == b[i - a.len()]);
        }
    }
}

/// The shape shared by the four display pieces: nonempty, `+` exactly at
/// the end, ASCII, whitespace-free, already lowercase.
pub open spec fn lit_shape(p: Seq<char>) -> bool {
    &&& p.len() > 0
    &&& p[p.len() - 1] == '+'
    &&& crate::split::plus_free(p.take(p.len() - 1))
    &&& ascii_chars(p)
    &&& ws_free(p)
    &&& lower_spec(p) == p
}

/// ASCII text is preserved by concatenation.
proof fn lemma_ascii_append(a: Seq<char>, b: Seq<char>)
    requires
        ascii_chars(a),
        ascii_chars(b),
    ensures
        ascii_chars(a + b),
{
    assert forall|i: int| 0 <= i < (a + b).len() implies is_ascii_char(#[trigger] (a + b)[i]) by {
        if i < a.len() {
            assert((a + b)[i] == a[i]);
        } else {
            assert((a + b)[i] == b[i - a.len()]);
        }
    }
}

/// The four modifier pieces the display emits all have the piece shape.
proof fn lemma_display_pieces_shape()
    ensures
        lit_shape(meta_piece()),
        lit_shape(alt_piece()),
        lit_shape(ctrl_piece()),
        lit_shape(shift_piece()),
{
    let pm = meta_piece();
    assert(pm[0] == 'm' && pm[1] == 'e' && pm[2] == 't' && pm[3] == 'a' && pm[4] == '+');
    assert(lit_shape(pm)) by {
        assert forall|i: int| 0 <= i < 4 implies pm.take(4)[i] != '+' by {
            assert(pm.take(4)[i] == pm[i]);
        }
        assert forall|i: int| 0 <= i < 5 implies is_ascii_char(#[trigger] pm[i]) by {}
        assert forall|i: int| 0 <= i < 5 implies !is_ws_char(#[trigger] pm[i]) by {}
        assert forall|i: int| 0 <= i < 5 implies lower_char_spec(#[trigger] pm[i]) == pm[i] by {}
        assert(lower_spec(pm) =~= pm);
    }
    let pa = alt_piece();
    assert(pa[0] == 'a' && pa[1] == 'l' && pa[2] == 't' && pa[3] == '+');
    assert(lit_shape(pa)) by {
        assert forall|i: int| 0 <= i < 3 implies pa.take(3)[i] != '+' by {
            assert(pa.take(3)[i] == pa[i]);
        }
        assert forall|i: int| 0 <= i < 4 implies is_ascii_char(#[trigger] pa[i]) by {}
        assert forall|i: int| 0 <= i < 4 implies !is_ws_char(#[trigger] pa[i]) by {}
        assert forall|i: int| 0 <= i < 4 implies lower_char_spec(#[trigger] pa[i]) == pa[i] by {}
        assert(lower_spec(pa) =~= pa);
    }
    let pc = ctrl_piece();
    assert(pc[0] == 'c' && pc[1] == 't' && pc[2] == 'r' && pc[3] == 'l' && pc[4] == '+');
    assert(lit_shape(pc)) by {
        assert forall|i: int| 0 <= i < 4 implies pc.take(4)[i] != '+' by {
            assert(pc.take(4)[i] == pc[i]);
        }
        assert forall|i: int| 0 <= i < 5 implies is_ascii_char(#[trigger] pc[i]) by {}
        assert forall|i: int| 0 <= i < 5 implies !is_ws_char(#[trigger] pc[i]) by {}
        assert forall|i: int| 0 <= i < 5 implies lower_char_spec(#[trigger] pc[i]) == pc[i] by {}
        assert(lower_spec(pc) =~= pc);
    }
    let ps = shift_piece();
    assert(ps[0] == 's' && ps[1] == 'h' && ps[2] == 'i' && ps[3] == 'f' && ps[4] == 't' && ps[5]
        == '+');
    assert(lit_shape(ps)) by {
        assert forall|i: int| 0 <= i < 5 implies ps.take(5)[i] != '+' by {
            assert(ps.take(5)[i] == ps[i]);
        }
        assert forall|i: int| 0 <= i < 6 implies is_ascii_char(#[trigger] ps[i]) by {}
        assert forall|i: int| 0 <= i < 6 implies !is_ws_char(#[trigger] ps[i]) by {}
        assert forall|i: int| 0 <= i < 6 implies lower_char_spec(#[trigger] ps[i]) == ps[i] by {}
        assert(lower_spec(ps) =~= ps);
    }
}

/// A piece with the display shape is split off whole at the front.
proof fn lemma_split_lit_prefix(lit: Seq<char>, rest: Seq<char>)
    requires
        lit_shape(lit),
    ensures
        split_plus(lit + rest) == seq![lit] + split_plus(rest),
{
    let p = lit.take(lit.len() - 1);
    crate::split::lemma_split_plus_step(p, rest);
    assert(p + seq!['+'] =~= lit);
    assert((p + seq!['+']) + rest == lit + rest);
}

/// Displaying a canonical chord with an ASCII label and parsing the text
/// again restores the chord; the text is ASCII, whitespace-free when the
/// label is, and nonempty when the chord is marked.
#[verifier::rlimit(50)]
proof fn lemma_display_parse(k: KeyV)
    requires
        canonical_key(k),
        ascii_chars(k.label),
    ensures
        parse_one_key_spec(display_key_spec(k)) == k,
        ascii_chars(display_key_spec(k)),
        ws_free(k.label) ==> ws_free(display_key_spec(k)),
        key_marked(k) ==> display_key_spec(k).len() > 0,
{
    lemma_display_pieces_shape();
    lemma_piece_flag_values();
    let d = display_key_spec(k);
    let m = k.modifiers;
    let e = Seq::<char>::empty();
    let el = Seq::<Seq<char>>::empty();
    let pm: Seq<char> = if m.command { meta_piece() } else { e };
    let pa: Seq<char> = if m.option { alt_piece() } else { e };
    let pc: Seq<char> = if m.control { ctrl_piece() } else { e };
    let ps: Seq<char> = if m.shift { shift_piece() } else { e };
    assert(d == pm + pa + pc + ps + k.label);
    assert(ascii_chars(e)) by {
        assert forall|i: int| 0 <= i < e.len() implies is_ascii_char(#[trigger] e[i]) by {}
    }
    lemma_ascii_append(pm, pa);
    lemma_ascii_append(pm + pa, pc);
    lemma_ascii_append(pm + pa + pc, ps);
    lemma_ascii_append(pm + pa + pc + ps, k.label);
    assert(ascii_chars(d));
    if ws_free(k.label) {
        lemma_ws_free_append(pm, pa);
        lemma_ws_free_append(pm + pa, pc);
        lemma_ws_free_append(pm + pa + pc, ps);
        lemma_ws_free_append(pm + pa + pc + ps, k.label);
    }
    // the text is still lowercase
    crate::text::lemma_lower_append(pm, pa);
    crate::text::lemma_lower_append(pm + pa, pc);
    crate::text::lemma_lower_append(pm + pa + pc, ps);
    crate::text::lemma_lower_append(pm + pa + pc + ps, k.label);
    assert(lower_spec(e) =~= e);
    assert(lower_spec(d) == d);
    // the pieces of the text
    let t3 = ps + k.label;
    let t2 = pc + t3;
    let t1 = pa + t2;
    let t0 = pm + t1;
    assert(t0 =~= d);
    let sl: Seq<Seq<char>> = if k.label.len() > 0 { seq![k.label] } else { el };
    if k.label.len() > 0 {
        lemma_split_plus_whole(k.label);
    }
    assert(split_plus(k.label) == sl);
    let ls: Seq<Seq<char>> = if m.shift { seq![shift_piece()] } else { el };
    let s3 = ls + sl;
    if m.shift {
        lemma_split_lit_prefix(shift_piece(), k.label);
    } else {
        assert(t3 =~= k.label);
        assert(s3 =~= sl);
    }
    assert(split_plus(t3) == s3);
    let lc: Seq<Seq<char>> = if m.control { seq![ctrl_piece()] } else { el };
    let s2 = lc + s3;
    if m.control {
        lemma_split_lit_prefix(ctrl_piece(), t3);
    } else {
        assert(t2 =~= t3);
        assert(s2 =~= s3);
    }
    assert(split_plus(t2) == s2);
    let la: Seq<Seq<char>> = if m.option { seq![alt_piece()] } else { el };
    let s1 = la + s2;
    if m.option {
        lemma_split_lit_prefix(alt_piece(), t2);
    } else {
        assert(t1 =~= t2);
        assert(s1 =~= s2);
    }
    assert(split_plus(t1) == s1);
    let lm: Seq<Seq<char>> = if m.command { seq![meta_piece()] } else { el };
    let s0 = lm + s1;
    if m.command {
        lemma_split_lit_prefix(meta_piece(), t1);
    } else {
        assert(t0 =~= t1);
        assert(s0 =~= s1);
    }
    assert(split_plus(t0) == s0);
    assert(split_plus(d) == s0);
    // folding the pieces back
    let k0 = empty_key();
    lemma_fold_append(k0, lm, s1);
    let k1 = fold_pieces(k0, lm);
    if m.command {
        lemma_fold_one(k0, meta_piece());
    }
    lemma_fold_append(k1, la, s2);
    let k2 = fold_pieces(k1, la);
    if m.option {
        lemma_fold_one(k1, alt_piece());
    }
    lemma_fold_append(k2, lc, s3);
    let k3 = fold_pieces(k2, lc);
    if m.control {
        lemma_fold_one(k2, ctrl_piece());
    }
    lemma_fold_append(k3, ls, sl);
    let k4 = fold_pieces(k3, ls);
    if m.shift {
        lemma_fold_one(k3, shift_piece());
    }
    let k5 = fold_pieces(k4, sl);
    if k.label.len() > 0 {
        lemma_fold_one(k4, k.label);
    }
    assert(lower_of(d) == d);
    assert(parse_one_key_spec(d) == fold_pieces(k0, s0));
    assert(fold_pieces(k0, s0) == k5);
    assert(k5.modifiers == m);
    assert(k5.label == k.label);
    assert(k5 == k);
}

/// Parsing an ASCII token is case-insensitive: the token and its
/// lowercase form parse to the same chord.  (For non-ASCII text the
/// lowercase form carries only a name, so the law is stated for ASCII.)
pub proof fn lemma_parse_case_insensitive(t: Seq<char>)
    requires
        ascii_chars(t),
    ensures
        parse_one_key_spec(lower_spec(t)) == parse_one_key_spec(t),
{
    lemma_lower_ascii(t);
    crate::text::lemma_lower_idempotent(t);
    assert(lower_of(t) == lower_spec(t));
    assert(lower_of(lower_spec(t)) == lower_spec(lower_spec(t)));
    assert(lower_spec(lower_spec(t)) == lower_spec(t));
}

/// Parsing, displaying and parsing again yields the first parse, for
/// every chord string of ASCII characters: the display text differs from
/// the input only in case and modifier order, never in meaning.  (The
/// lowercase form of non-ASCII text carries only a name, so the law is
/// stated for ASCII chord text.)
#[verifier::rlimit(50)]
pub proof fn lemma_parse_display_round_trip(c: Seq<char>)
    requires
        ascii_chars(c),
    ensures
        parse_key_sequence_spec(display_rule_spec(parse_key_sequence_spec(c)))
            == parse_key_sequence_spec(c),
{
    let r = parse_key_sequence_spec(c);
    let toks = split_ws(c);
    lemma_split_ws_tokens(c);
    assert forall|k: int| 0 <= k < toks.len() implies ascii_chars(#[trigger] toks[k]) by {
        assert(ws_token_ok(c, toks[k]));
        let p = toks[k];
        assert forall|i: int| 0 <= i < p.len() implies is_ascii_char(#[trigger] p[i]) by {
            assert(char_in(p[i], c));
            let a = choose|a: int| 0 <= a < c.len() && p[i] == c[a];
            assert(is_ascii_char(c[a]));
        }
    }
    let d = display_rule_spec(r);
    if toks.len() == 0 {
        assert(display_key_spec(empty_key()) =~= Seq::<char>::empty());
        assert(d =~= Seq::<char>::empty());
        assert(split_ws(d).len() == 0);
        assert(parse_key_sequence_spec(d) == r);
    } else if toks.len() == 1 {
        let t = toks[0];
        let k1 = r.first;
        lemma_parse_canonical(t);
        lemma_display_parse(k1);
        let d1 = display_key_spec(k1);
        assert(d =~= d1);
        lemma_split_ws_whole(d1);
        assert(split_ws(d) == seq![d1]);
        assert(parse_key_sequence_spec(d).first == k1);
        assert(parse_key_sequence_spec(d).second == r.second);
        assert(parse_key_sequence_spec(d) == r);
    } else {
        let t1 = toks[0];
        let t2 = toks[1];
        let k1 = r.first;
        let k2 = parse_one_key_spec(t2);
        lemma_parse_canonical(t1);
        lemma_parse_canonical(t2);
        lemma_display_parse(k1);
        lemma_display_parse(k2);
        let d1 = display_key_spec(k1);
        let d2 = display_key_spec(k2);
        assert(d == d1 + (seq![' '] + d2));
        assert(d =~= (d1 + seq![' ']) + d2);
        lemma_split_ws_step(d1, ' ', d2);
        lemma_split_ws_whole(d2);
        assert(split_ws((d1 + seq![' ']) + d2) == seq![d1] + seq![d2]);
        assert(seq![d1] + seq![d2] =~= seq![d1, d2]);
        assert(split_ws(d) == seq![d1, d2]);
        assert(parse_key_sequence_spec(d).first == k1);
        assert(parse_key_sequence_spec(d).second == Some(k2));
        assert(parse_key_sequence_spec(d) == r);
    }
}

} // verus!
