//! Splitting of character sequences: `+`-inclusive splitting of one chord
//! token into pieces, and whitespace splitting of a chord-sequence string
//! into tokens.

use vstd::prelude::*;

verus! {

/// Is `c` one of the five ASCII whitespace characters?
pub open spec fn is_ws_char(c: char) -> bool {
    c == ' ' || c == '\t' || c == '\n' || c == '\u{c}' || c == '\r'
}

/// No character of `s` is a `+`.
pub open spec fn plus_free(s: Seq<char>) -> bool {
    forall|i: int| 0 <= i < s.len() ==> s[i] != '+'
}

/// No character of `s` but possibly the last is a `+`.
pub open spec fn plus_free_interior(s: Seq<char>) -> bool {
    forall|i: int| 0 <= i < s.len() - 1 ==> s[i] != '+'
}

/// No character of `s` is ASCII whitespace.
pub open spec fn ws_free(s: Seq<char>) -> bool {
    forall|i: int| 0 <= i < s.len() ==> !is_ws_char(s[i])
}

/// `c` occurs somewhere in `s`.
pub open spec fn char_in(c: char, s: Seq<char>) -> bool {
    exists|a: int| 0 <= a < s.len() && c == s[a]
}

/// Every character of `p` occurs somewhere in `s`.
pub open spec fn chars_within(p: Seq<char>, s: Seq<char>) -> bool {
    forall|i: int| 0 <= i < p.len() ==> char_in(#[trigger] p[i], s)
}

/// Index of the first `+` in `s`, or `s.len()` if there is none.
pub open spec fn find_plus(s: Seq<char>) -> nat
    decreases s.len(),
{
    if s.len() == 0 {
        0
    } else if s[0] == '+' {
        0
    } else {
        (1 + find_plus(s.drop_first())) as nat
    }
}

/// Index of the first ASCII whitespace character in `s`, or `s.len()` if
/// there is none.
pub open spec fn find_ws(s: Seq<char>) -> nat
    decreases s.len(),
{
    if s.len() == 0 {
        0
    } else if is_ws_char(s[0]) {
        0
    } else {
        (1 + find_ws(s.drop_first())) as nat
    }
}

/// `s` split into pieces after each `+`, the separator kept at the end of
/// its piece; a trailing piece without `+` is kept as well.  No piece is
/// empty.
pub open spec fn split_plus(s: Seq<char>) -> Seq<Seq<char>>
    decreases s.len(),
{
    if s.len() == 0 {
        seq![]
    } else {
        let n = find_plus(s);
        if n >= s.len() {
            seq![s]
        } else {
            seq![s.take(n + 1 as int)] + split_plus(s.skip(n + 1 as int))
        }
    }
}

/// `s` split into the maximal runs of non-whitespace characters, in order.
pub open spec fn split_ws(s: Seq<char>) -> Seq<Seq<char>>
    decreases s.len(),
{
    if s.len() == 0 {
        seq![]
    } else if is_ws_char(s[0]) {
        split_ws(s.drop_first())
    } else {
        let n = find_ws(s);
        if n >= s.len() {
            seq![s]
        } else {
            seq![s.take(n as int)] + split_ws(s.skip(n as int))
        }
    }
}

pub proof fn lemma_find_plus(s: Seq<char>)
    ensures
        find_plus(s) <= s.len(),
        forall|j: int| 0 <= j < find_plus(s) ==> s[j] != '+',
        find_plus(s) < s.len() ==> s[find_plus(s) as int] == '+',
    decreases s.len(),
{
    if s.len() != 0 && s[0] != '+' {
        lemma_find_plus(s.drop_first());
        assert forall|j: int| 0 <= j < find_plus(s) implies s[j] != '+' by {
            if j > 0 {
                assert(s.drop_first()[j - 1] != '+');
            }
        }
    }
}

/// `find_plus` is pinned down by the properties of its result.
pub proof fn lemma_find_plus_is(s: Seq<char>, n: int)
    requires
        0 <= n <= s.len(),
        forall|j: int| 0 <= j < n ==> s[j] != '+',
        n < s.len() ==> s[n] == '+',
    ensures
        find_plus(s) == n,
    decreases s.len(),
{
    if s.len() != 0 && s[0] != '+' {
        lemma_find_plus_is(s.drop_first(), n - 1);
    }
}

pub proof fn lemma_find_ws(s: Seq<char>)
    ensures
        find_ws(s) <= s.len(),
        forall|j: int| 0 <= j < find_ws(s) ==> !is_ws_char(s[j]),
        find_ws(s) < s.len() ==> is_ws_char(s[find_ws(s) as int]),
    decreases s.len(),
{
    if s.len() != 0 && !is_ws_char(s[0]) {
        lemma_find_ws(s.drop_first());
        assert forall|j: int| 0 <= j < find_ws(s) implies !is_ws_char(s[j]) by {
            if j > 0 {
                assert(!is_ws_char(s.drop_first()[j - 1]));
            }
        }
    }
}

/// `find_ws` is pinned down by the properties of its result.
pub proof fn lemma_find_ws_is(s: Seq<char>, n: int)
    requires
        0 <= n <= s.len(),
        forall|j: int| 0 <= j < n ==> !is_ws_char(s[j]),
        n < s.len() ==> is_ws_char(s[n]),
    ensures
        find_ws(s) == n,
    decreases s.len(),
{
    if s.len() != 0 && !is_ws_char(s[0]) {
        lemma_find_ws_is(s.drop_first(), n - 1);
    }
}

/// Splitting off one complete `+`-terminated piece at the front.
pub proof fn lemma_split_plus_step(p: Seq<char>, rest: Seq<char>)
    requires
        plus_free(p),
    ensures
        split_plus(p + seq!['+'] + rest) == seq![p + seq!['+']] + split_plus(rest),
{
    let s = p + seq!['+'] + rest;
    assert(s[p.len() as int] == '+');
    lemma_find_plus_is(s, p.len() as int);
    assert(s.take(p.len() + 1 as int) =~= p + seq!['+']);
    assert(s.skip(p.len() + 1 as int) =~= rest);
}

/// A sequence with `+` at most in final position is a single piece.
pub proof fn lemma_split_plus_whole(s: Seq<char>)
    requires
        s.len() > 0,
        plus_free_interior(s),
    ensures
        split_plus(s) == seq![s],
{
    if s[s.len() - 1] == '+' {
        lemma_find_plus_is(s, s.len() - 1);
        assert(s.take(s.len() - 1 + 1) =~= s);
        assert(s.skip(s.len() - 1 + 1) =~= Seq::<char>::empty());
        assert(seq![s] + split_plus(Seq::<char>::empty()) =~= seq![s]);
    } else {
        lemma_find_plus_is(s, s.len() as int);
    }
}

/// What one piece of `split_plus(s)` looks like.
pub open spec fn plus_piece_ok(s: Seq<char>, p: Seq<char>) -> bool {
    p.len() > 0 && plus_free_interior(p) && chars_within(p, s)
}

pub proof fn lemma_split_plus_pieces(s: Seq<char>)
    ensures
        forall|k: int|
            0 <= k < split_plus(s).len() ==> plus_piece_ok(s, #[trigger] split_plus(s)[k]),
    decreases s.len(),
{
    lemma_find_plus(s);
    if s.len() == 0 {
    } else {
        let n = find_plus(s);
        if n >= s.len() {
            assert(plus_piece_ok(s, s)) by {
                assert forall|i: int| 0 <= i < s.len() implies char_in(#[trigger] s[i], s) by {
                    assert(0 <= i < s.len() && s[i] == s[i]);
                }
            }
        } else {
            let head = s.take(n + 1 as int);
            let tail = s.skip(n + 1 as int);
            lemma_split_plus_pieces(tail);
            assert(plus_piece_ok(s, head)) by {
                assert forall|i: int| 0 <= i < head.len() implies char_in(
                    #[trigger] head[i],
                    s,
                ) by {
                    assert(0 <= i < s.len() && head[i] == s[i]);
                }
            }
            assert forall|k: int|
                0 <= k < split_plus(s).len() implies plus_piece_ok(
                s,
                #[trigger] split_plus(s)[k],
            ) by {
                if k > 0 {
                    let p = split_plus(tail)[k - 1];
                    assert(plus_piece_ok(tail, p));
                    assert forall|i: int| 0 <= i < p.len() implies char_in(#[trigger] p[i], s) by {
                        assert(char_in(p[i], tail));
                        let a0 = choose|a0: int| 0 <= a0 < tail.len() && p[i] == tail[a0];
                        assert(p[i] == s[a0 + n + 1]);
                    }
                }
            }
        }
    }
}

/// Splitting off one complete whitespace-terminated token at the front.
pub proof fn lemma_split_ws_step(p: Seq<char>, c: char, rest: Seq<char>)
    requires
        p.len() > 0,
        ws_free(p),
        is_ws_char(c),
    ensures
        split_ws(p + seq![c] + rest) == seq![p] + split_ws(rest),
{
    let s = p + seq![c] + rest;
    assert(is_ws_char(s[p.len() as int]));
    lemma_find_ws_is(s, p.len() as int);
    assert(s[0] == p[0]);
    assert(s.take(p.len() as int) =~= p);
    assert(s.skip(p.len() as int) =~= seq![c] + rest);
    assert(split_ws(s) == seq![p] + split_ws(seq![c] + rest));
    assert((seq![c] + rest)[0] == c);
    assert((seq![c] + rest).drop_first() =~= rest);
    assert(split_ws(seq![c] + rest) == split_ws(rest));
}

/// A leading whitespace character does not change the tokens.
pub proof fn lemma_split_ws_skip(c: char, rest: Seq<char>)
    requires
        is_ws_char(c),
    ensures
        split_ws(seq![c] + rest) == split_ws(rest),
{
    assert((seq![c] + rest).drop_first() =~= rest);
}

/// A whitespace-free sequence is at most one token.
pub proof fn lemma_split_ws_whole(s: Seq<char>)
    requires
        ws_free(s),
    ensures
        s.len() == 0 ==> split_ws(s) == Seq::<Seq<char>>::empty(),
        s.len() > 0 ==> split_ws(s) == seq![s],
{
    if s.len() > 0 {
        lemma_find_ws_is(s, s.len() as int);
    }
}

/// What one token of `split_ws(s)` looks like.
pub open spec fn ws_token_ok(s: Seq<char>, p: Seq<char>) -> bool {
    p.len() > 0 && ws_free(p) && chars_within(p, s)
}

/// Every token of `split_ws(s)` is nonempty, whitespace-free, and made of
/// characters of `s`.
pub proof fn lemma_split_ws_tokens(s: Seq<char>)
    ensures
        forall|k: int| 0 <= k < split_ws(s).len() ==> ws_token_ok(s, #[trigger] split_ws(s)[k]),
    decreases s.len(),
{
    lemma_find_ws(s);
    if s.len() == 0 {
    } else if is_ws_char(s[0]) {
        let rest = s.drop_first();
        lemma_split_ws_tokens(rest);
        assert forall|k: int|
            0 <= k < split_ws(s).len() implies ws_token_ok(s, #[trigger] split_ws(s)[k]) by {
            let p = split_ws(rest)[k];
            assert(split_ws(s)[k] == p);
            assert(ws_token_ok(rest, p));
            assert forall|i: int| 0 <= i < p.len() implies char_in(#[trigger] p[i], s) by {
                assert(char_in(p[i], rest));
                let a = choose|a: int| 0 <= a < rest.len() && p[i] == rest[a];
                assert(p[i] == s[a + 1]);
            }
        }
    } else {
        let n = find_ws(s);
        if n >= s.len() {
            assert(ws_free(s));
            assert forall|k: int|
                0 <= k < split_ws(s).len() implies ws_token_ok(s, #[trigger] split_ws(s)[k]) by {
                assert(split_ws(s)[k] == s);
                assert forall|i: int| 0 <= i < s.len() implies char_in(#[trigger] s[i], s) by {
                    assert(0 <= i < s.len() && s[i] == s[i]);
                }
            }
        } else {
            let head = s.take(n as int);
            let tail = s.skip(n as int);
            lemma_split_ws_tokens(tail);
            assert(head.len() > 0);
            assert(ws_free(head)) by {
                assert forall|j: int| 0 <= j < head.len() implies !is_ws_char(head[j]) by {
                    assert(head[j] == s[j]);
                }
            }
            assert forall|k: int|
                0 <= k < split_ws(s).len() implies ws_token_ok(s, #[trigger] split_ws(s)[k]) by {
                if k == 0 {
                    assert(split_ws(s)[0] == head);
                    assert forall|i: int| 0 <= i < head.len() implies char_in(
                        #[trigger] head[i],
                        s,
                    ) by {
                        assert(0 <= i < s.len() && head[i] == s[i]);
                    }
                } else {
                    let p = split_ws(tail)[k - 1];
                    assert(split_ws(s)[k] == p);
                    assert(ws_token_ok(tail, p));
                    assert forall|i: int| 0 <= i < p.len() implies char_in(#[trigger] p[i], s) by {
                        assert(char_in(p[i], tail));
                        let a = choose|a: int| 0 <= a < tail.len() && p[i] == tail[a];
                        assert(p[i] == s[a + n]);
                    }
                }
            }
        }
    }
}

/// The views of the vectors in a sequence of character vectors.
pub open spec fn views_of(ps: Seq<Vec<char>>) -> Seq<Seq<char>> {
    ps.map_values(|p: Vec<char>| p@)
}

/// `+`-inclusive splitting, executably: every piece ends with `+` except
/// possibly the last one.
pub fn split_plus_exec(s: &Vec<char>) -> (ps: Vec<Vec<char>>)
    ensures
        views_of(ps@) == split_plus(s@),
{
    let mut out: Vec<Vec<char>> = Vec::new();
    let mut cur: Vec<char> = Vec::new();
    let mut i: usize = 0;
    proof {
        assert(cur@ + s@.skip(0) =~= s@);
        assert(views_of(out@) + split_plus(s@) =~= split_plus(s@));
    }
    while i < s.len()
        invariant
            i <= s.len(),
            plus_free(cur@),
            split_plus(s@) == views_of(out@) + split_plus(cur@ + s@.skip(i as int)),
        decreases s.len() - i,
    {
        let ghost pre_out = out@;
        let ghost pre_cur = cur@;
        let ghost rest = s@.skip(i as int + 1);
        let c = s[i];
        proof {
            assert(pre_cur + s@.skip(i as int) =~= (pre_cur + seq![c]) + rest);
        }
        if c == '+' {
            proof {
                lemma_split_plus_step(pre_cur, rest);
            }
            cur.push('+');
            proof {
                assert(cur@ =~= pre_cur + seq!['+']);
            }
            out.push(cur);
            cur = Vec::new();
            proof {
                assert(cur@ + rest =~= rest);
                assert(views_of(out@) =~= views_of(pre_out).push(pre_cur + seq!['+']));
                assert(views_of(pre_out).push(pre_cur + seq!['+']) + split_plus(rest)
                    =~= views_of(pre_out) + (seq![pre_cur + seq!['+']] + split_plus(rest)));
            }
        } else {
            cur.push(c);
            proof {
                assert(cur@ =~= pre_cur + seq![c]);
            }
        }
        i = i + 1;
    }
    proof {
        assert(cur@ + s@.skip(i as int) =~= cur@);
    }
    if cur.len() > 0 {
        proof {
            lemma_split_plus_whole(cur@);
        }
        let ghost pre_out = out@;
        let ghost last = cur@;
        out.push(cur);
        proof {
            assert(views_of(out@) =~= views_of(pre_out).push(last));
            assert(views_of(pre_out).push(last) =~= views_of(pre_out) + seq![last]);
        }
    } else {
        proof {
            assert(views_of(out@) + split_plus(cur@) =~= views_of(out@));
        }
    }
    out
}

/// Whitespace splitting, executably: the maximal whitespace-free runs.
pub fn split_ws_exec(s: &Vec<char>) -> (ts: Vec<Vec<char>>)
    ensures
        views_of(ts@) == split_ws(s@),
{
    let mut out: Vec<Vec<char>> = Vec::new();
    let mut cur: Vec<char> = Vec::new();
    let mut i: usize = 0;
    proof {
        assert(cur@ + s@.skip(0) =~= s@);
        assert(views_of(out@) + split_ws(s@) =~= split_ws(s@));
    }
    while i < s.len()
        invariant
            i <= s.len(),
            ws_free(cur@),
            split_ws(s@) == views_of(out@) + split_ws(cur@ + s@.skip(i as int)),
        decreases s.len() - i,
    {
        let ghost pre_out = out@;
        let ghost pre_cur = cur@;
        let ghost rest = s@.skip(i as int + 1);
        let c = s[i];
        proof {
            assert(pre_cur + s@.skip(i as int) =~= (pre_cur + seq![c]) + rest);
        }
        let ws = c == ' ' || c == '\t' || c == '\n' || c == '\u{c}' || c == '\r';
        if ws {
            if cur.len() > 0 {
                proof {
                    lemma_split_ws_step(pre_cur, c, rest);
                }
                out.push(cur);
                cur = Vec::new();
                proof {
                    assert(cur@ + rest =~= rest);
                    assert(views_of(out@) =~= views_of(pre_out).push(pre_cur));
                    assert(views_of(pre_out).push(pre_cur) + split_ws(rest) =~= views_of(pre_out)
                        + (seq![pre_cur] + split_ws(rest)));
                }
            } else {
                proof {
                    assert((pre_cur + seq![c]) + rest =~= seq![c] + rest);
                    lemma_split_ws_skip(c, rest);
                    assert(pre_cur + rest =~= rest);
                }
            }
        } else {
            cur.push(c);
            proof {
                assert(cur@ =~= pre_cur + seq![c]);
            }
        }
        i = i + 1;
    }
    proof {
        assert(cur@ + s@.skip(i as int) =~= cur@);
        lemma_split_ws_whole(cur@);
    }
    if cur.len() > 0 {
        let ghost pre_out = out@;
        let ghost last = cur@;
        out.push(cur);
        proof {
            assert(views_of(out@) =~= views_of(pre_out).push(last));
            assert(views_of(pre_out).push(last) =~= views_of(pre_out) + seq![last]);
        }
    } else {
        proof {
            assert(views_of(out@) + split_ws(cur@) =~= views_of(out@));
        }
    }
    out
}

} // verus!
