//! Character-level helpers: Unicode lowercasing of chord text, conversion
//! between strings and character vectors, and comparison of character
//! vectors with string literals.

use vstd::prelude::*;

verus! {

/// ASCII lowercasing of one character: `'A'..='Z'` map to `'a'..='z'`,
/// everything else is unchanged.
pub open spec fn lower_char_spec(c: char) -> char {
    if 65 <= c as u32 && c as u32 <= 90 {
        ((c as u32 + 32) as u8) as char
    } else {
        c
    }
}

/// Pointwise ASCII lowercasing of a character sequence.
pub open spec fn lower_spec(s: Seq<char>) -> Seq<char> {
    s.map_values(|c: char| lower_char_spec(c))
}

/// A sequence is lower-closed when lowercasing leaves it unchanged.
pub open spec fn lower_closed(s: Seq<char>) -> bool {
    lower_spec(s) == s
}

/// Lowercasing is idempotent on single characters.
pub proof fn lemma_lower_char_idempotent(c: char)
    ensures
        lower_char_spec(lower_char_spec(c)) == lower_char_spec(c),
{
    if 65 <= c as u32 && c as u32 <= 90 {
        assert(((c as u32 + 32) as u8) as char as u32 == c as u32 + 32);
    }
}

/// Lowercasing is idempotent on sequences.
pub proof fn lemma_lower_idempotent(s: Seq<char>)
    ensures
        lower_closed(lower_spec(s)),
{
    assert forall|i: int| 0 <= i < s.len() implies lower_char_spec(lower_spec(s)[i])
        == lower_spec(s)[i] by {
        lemma_lower_char_idempotent(s[i]);
    }
    assert(lower_spec(lower_spec(s)) =~= lower_spec(s));
}

/// Lowercasing distributes over concatenation.
pub proof fn lemma_lower_append(a: Seq<char>, b: Seq<char>)
    ensures
        lower_spec(a + b) == lower_spec(a) + lower_spec(b),
{
    assert(lower_spec(a + b) =~= lower_spec(a) + lower_spec(b));
}

/// `c` is an ASCII character.
pub open spec fn is_ascii_char(c: char) -> bool {
    (c as u32) < 128
}

/// Every character of `s` is ASCII.
pub open spec fn ascii_chars(s: Seq<char>) -> bool {
    forall|i: int| 0 <= i < s.len() ==> is_ascii_char(#[trigger] s[i])
}

/// The Unicode lowercase form of a character sequence that holds at least
/// one non-ASCII character.  Unicode case mapping takes pages to state, so
/// this result only carries a name; it depends on the characters alone.
pub uninterp spec fn unicode_lower_of(s: Seq<char>) -> Seq<char>;

/// The Unicode lowercase form of a character sequence.  On ASCII text the
/// Unicode case mapping is exactly the pointwise ASCII fold; on any other
/// text the result only carries a name.
pub open spec fn lower_of(s: Seq<char>) -> Seq<char> {
    if ascii_chars(s) {
        lower_spec(s)
    } else {
        unicode_lower_of(s)
    }
}

/// Lowercasing keeps ASCII text ASCII.
pub proof fn lemma_lower_ascii(s: Seq<char>)
    requires
        ascii_chars(s),
    ensures
        ascii_chars(lower_spec(s)),
{
    assert forall|i: int| 0 <= i < lower_spec(s).len() implies is_ascii_char(
        #[trigger] lower_spec(s)[i],
    ) by {
        if 65 <= s[i] as u32 && s[i] as u32 <= 90 {
            assert(((s[i] as u32 + 32) as u8) as char as u32 == s[i] as u32 + 32);
        }
    }
}

/// Relies on `str::to_lowercase`: the Unicode lowercase form of a string.
/// The result depends on the characters alone, and Unicode case mapping
/// sends the ASCII letters `A`..=`Z` to `a`..=`z` and leaves every other
/// ASCII character unchanged, which is the ASCII branch of `lower_of`.
#[verifier::external_body]
pub(crate) fn to_lowercase(s: &str) -> (r: String)
    ensures
        r@ == lower_of(s@),
        !ascii_chars(s@) ==> r@ == unicode_lower_of(s@),
{
    s.to_lowercase()
}

/// The characters of a string, as a vector.
pub fn str_chars(s: &str) -> (v: Vec<char>)
    ensures
        v@ == s@,
{
    let n = s.unicode_len();
    let mut v: Vec<char> = Vec::new();
    let mut i: usize = 0;
    while i < n
        invariant
            i <= n,
            n == s@.len(),
            v@ == s@.take(i as int),
        decreases n - i,
    {
        v.push(s.get_char(i));
        i = i + 1;
        assert(v@ =~= s@.take(i as int));
    }
    assert(v@ =~= s@);
    v
}

/// Relies on `String::push`: appending one character to the end of a string.
#[verifier::external_body]
fn push_char(s: &mut String, c: char)
    ensures
        final(s)@ == old(s)@.push(c),
{
    s.push(c)
}

/// A string holding exactly the given characters.
pub fn chars_to_string(v: &Vec<char>) -> (s: String)
    ensures
        s@ == v@,
{
    let mut s = String::new();
    let mut i: usize = 0;
    while i < v.len()
        invariant
            i <= v.len(),
            s@ == v@.take(i as int),
        decreases v.len() - i,
    {
        push_char(&mut s, v[i]);
        i = i + 1;
        assert(s@ =~= v@.take(i as int));
    }
    assert(s@ =~= v@);
    s
}

/// Do the characters in `v` spell exactly the string `s`?
pub fn chars_eq_str(v: &Vec<char>, s: &str) -> (r: bool)
    ensures
        r == (v@ == s@),
{
    let n = s.unicode_len();
    if v.len() != n {
        return false;
    }
    let mut i: usize = 0;
    while i < n
        invariant
            i <= n,
            n == s@.len(),
            v@.len() == n,
            forall|j: int| 0 <= j < i ==> v@[j] == s@[j],
        decreases n - i,
    {
        if v[i] != s.get_char(i) {
            return false;
        }
        i = i + 1;
    }
    assert(v@ =~= s@);
    true
}

} // verus!
