//! Character-level helpers on strings: whitespace, prefixes, equality and
//! the first whitespace-separated word.

use vstd::prelude::*;

verus! {

/// The characters with the Unicode `White_Space` property, which is the set
/// that `char::is_whitespace` accepts.
pub open spec fn is_white_space_spec(c: char) -> bool {
    ||| ('\u{9}' <= c && c <= '\u{d}')
    ||| c == ' '
    ||| c == '\u{85}'
    ||| c == '\u{a0}'
    ||| c == '\u{1680}'
    ||| ('\u{2000}' <= c && c <= '\u{200a}')
    ||| c == '\u{2028}'
    ||| c == '\u{2029}'
    ||| c == '\u{202f}'
    ||| c == '\u{205f}'
    ||| c == '\u{3000}'
}

/// Decides whether `c` is a whitespace character.
pub fn is_white_space(c: char) -> (r: bool)
    ensures
        r == is_white_space_spec(c),
{
    ('\u{9}' <= c && c <= '\u{d}') || c == ' ' || c == '\u{85}' || c == '\u{a0}' || c
        == '\u{1680}' || ('\u{2000}' <= c && c <= '\u{200a}') || c == '\u{2028}' || c
        == '\u{2029}' || c == '\u{202f}' || c == '\u{205f}' || c == '\u{3000}'
}

/// The characters of `s`, one by one.
pub fn chars_of(s: &str) -> (r: Vec<char>)
    ensures
        r@ == s@,
{
    let mut r: Vec<char> = Vec::new();
    for c in it: s.chars()
        invariant
            r@ == it.seq().take(it.index()),
            it.seq() == s@,
    {
        r.push(c);
    }
    r
}

/// `s` with its leading whitespace removed.
pub open spec fn skip_white_space(s: Seq<char>) -> Seq<char>
    decreases s.len(),
{
    if s.len() > 0 && is_white_space_spec(s[0]) {
        skip_white_space(s.drop_first())
    } else {
        s
    }
}

/// The longest prefix of `s` that holds no whitespace.
pub open spec fn leading_word(s: Seq<char>) -> Seq<char>
    decreases s.len(),
{
    if s.len() > 0 && !is_white_space_spec(s[0]) {
        seq![s[0]] + leading_word(s.drop_first())
    } else {
        Seq::empty()
    }
}

/// The first maximal run of non-whitespace characters in `s`, the first item
/// that splitting `s` at whitespace yields; `None` when `s` holds only
/// whitespace.
pub open spec fn first_word(s: Seq<char>) -> Option<Seq<char>> {
    let rest = skip_white_space(s);
    if rest.len() == 0 {
        None
    } else {
        Some(leading_word(rest))
    }
}

/// Whether `s` holds no whitespace character.
pub open spec fn no_white_space(s: Seq<char>) -> bool {
    forall|i: int| 0 <= i < s.len() ==> !is_white_space_spec(#[trigger] s[i])
}

/// The leading word of any text holds no whitespace.
pub proof fn lemma_leading_word_has_no_white_space(s: Seq<char>)
    ensures
        no_white_space(leading_word(s)),
        leading_word(s).len() <= s.len(),
    decreases s.len(),
{
    if s.len() > 0 && !is_white_space_spec(s[0]) {
        lemma_leading_word_has_no_white_space(s.drop_first());
        let rest = leading_word(s.drop_first());
        assert forall|i: int| 0 <= i < leading_word(s).len() implies !is_white_space_spec(
            #[trigger] leading_word(s)[i],
        ) by {
            if i > 0 {
                assert(leading_word(s)[i] == rest[i - 1]);
            }
        }
    }
}

/// A text without whitespace is its own leading word.
pub proof fn lemma_leading_word_of_word(s: Seq<char>)
    requires
        no_white_space(s),
    ensures
        leading_word(s) == s,
    decreases s.len(),
{
    if s.len() > 0 {
        assert(!is_white_space_spec(s[0]));
        assert forall|i: int| 0 <= i < s.drop_first().len() implies !is_white_space_spec(
            #[trigger] s.drop_first()[i],
        ) by {
            assert(s.drop_first()[i] == s[i + 1]);
        }
        lemma_leading_word_of_word(s.drop_first());
        assert(seq![s[0]] + s.drop_first() =~= s);
    } else {
        assert(s =~= Seq::empty());
    }
}

/// Skipping leading whitespace gives a suffix of the text, which starts
/// with a non-whitespace character unless it is empty.
pub proof fn lemma_skip_white_space_shape(s: Seq<char>)
    ensures
        skip_white_space(s).len() <= s.len(),
        skip_white_space(s).len() > 0 ==> !is_white_space_spec(skip_white_space(s)[0]),
    decreases s.len(),
{
    if s.len() > 0 && is_white_space_spec(s[0]) {
        lemma_skip_white_space_shape(s.drop_first());
    }
}

/// The first word of a text is never empty and holds no whitespace; a
/// non-empty text without whitespace is its own first word.
pub proof fn lemma_first_word_shape(s: Seq<char>)
    ensures
        first_word(s) matches Some(w) ==> w.len() > 0 && no_white_space(w),
        s.len() > 0 && no_white_space(s) ==> first_word(s) == Some(s),
{
    lemma_skip_white_space_shape(s);
    let rest = skip_white_space(s);
    lemma_leading_word_has_no_white_space(rest);
    if rest.len() > 0 {
        assert(!is_white_space_spec(rest[0]));
        assert(leading_word(rest).len() > 0);
    }
    if s.len() > 0 && no_white_space(s) {
        assert(!is_white_space_spec(s[0]));
        assert(skip_white_space(s) == s);
        lemma_leading_word_of_word(s);
    }
}

/// Whether every character of `s` is whitespace.
pub open spec fn all_white_space(s: Seq<char>) -> bool {
    forall|i: int| 0 <= i < s.len() ==> is_white_space_spec(#[trigger] s[i])
}

/// Skipping the leading whitespace of `ws + t`, where `ws` is all
/// whitespace and `t` does not start with whitespace, leaves `t`.
pub proof fn lemma_skip_white_space_prefix(ws: Seq<char>, t: Seq<char>)
    requires
        all_white_space(ws),
        t.len() == 0 || !is_white_space_spec(t[0]),
    ensures
        skip_white_space(ws + t) == t,
    decreases ws.len(),
{
    if ws.len() == 0 {
        assert(ws + t =~= t);
    } else {
        assert((ws + t)[0] == ws[0]);
        assert((ws + t).drop_first() =~= ws.drop_first() + t);
        assert forall|i: int| 0 <= i < ws.drop_first().len() implies is_white_space_spec(
            #[trigger] ws.drop_first()[i],
        ) by {
            assert(ws.drop_first()[i] == ws[i + 1]);
        }
        lemma_skip_white_space_prefix(ws.drop_first(), t);
    }
}

/// The leading word of `w + rest`, where `w` holds no whitespace and `rest`
/// is empty or starts with whitespace, is `w`.
pub proof fn lemma_leading_word_prefix(w: Seq<char>, rest: Seq<char>)
    requires
        no_white_space(w),
        rest.len() == 0 || is_white_space_spec(rest[0]),
    ensures
        leading_word(w + rest) == w,
    decreases w.len(),
{
    if w.len() == 0 {
        assert(w + rest =~= rest);
        assert(w =~= Seq::<char>::empty());
    } else {
        assert((w + rest)[0] == w[0]);
        assert(!is_white_space_spec(w[0]));
        assert((w + rest).drop_first() =~= w.drop_first() + rest);
        assert forall|i: int| 0 <= i < w.drop_first().len() implies !is_white_space_spec(
            #[trigger] w.drop_first()[i],
        ) by {
            assert(w.drop_first()[i] == w[i + 1]);
        }
        lemma_leading_word_prefix(w.drop_first(), rest);
        assert(seq![w[0]] + w.drop_first() =~= w);
    }
}

/// A text made only of whitespace has nothing left once its leading
/// whitespace is skipped.
pub proof fn lemma_skip_all_white_space(s: Seq<char>)
    requires
        all_white_space(s),
    ensures
        skip_white_space(s).len() == 0,
{
    lemma_skip_white_space_prefix(s, Seq::empty());
    assert(s + Seq::<char>::empty() =~= s);
}

/// Whether `prefix` is a prefix of `s`.
pub open spec fn has_prefix(s: Seq<char>, prefix: Seq<char>) -> bool {
    prefix.len() <= s.len() && s.take(prefix.len() as int) == prefix
}

/// Appends one character to a string.
///
/// Trusted: calls `String::push`, which appends `c` to the end of `s`; the
/// contract says exactly that of the character sequence.
#[verifier::external_body]
pub(crate) fn push_char(s: &mut String, c: char)
    ensures
        final(s)@ == old(s)@.push(c),
{
    s.push(c);
}

/// Whether the characters in `a` and `b` are the same.
pub fn chars_equal(a: &Vec<char>, b: &Vec<char>) -> (r: bool)
    ensures
        r == (a@ == b@),
{
    if a.len() != b.len() {
        return false;
    }
    let mut i: usize = 0;
    while i < a.len()
        invariant
            a.len() == b.len(),
            i <= a.len(),
            forall|k: int| 0 <= k < i ==> a@[k] == b@[k],
        decreases a.len() - i,
    {
        if a[i] != b[i] {
            return false;
        }
        i = i + 1;
    }
    assert(a@ =~= b@);
    true
}

/// Whether `s` begins with the characters of `prefix`.
pub fn starts_with_chars(s: &Vec<char>, prefix: &Vec<char>) -> (r: bool)
    ensures
        r == has_prefix(s@, prefix@),
{
    if prefix.len() > s.len() {
        return false;
    }
    let mut i: usize = 0;
    while i < prefix.len()
        invariant
            prefix.len() <= s.len(),
            i <= prefix.len(),
            forall|k: int| 0 <= k < i ==> s@[k] == prefix@[k],
        decreases prefix.len() - i,
    {
        if s[i] != prefix[i] {
            assert(s@.take(prefix.len() as int)[i as int] != prefix@[i as int]);
            return false;
        }
        i = i + 1;
    }
    assert(s@.take(prefix.len() as int) =~= prefix@);
    true
}

/// Whether the string `s` holds exactly the characters of `t`.
pub fn str_equals(s: &str, t: &str) -> (r: bool)
    ensures
        r == (s@ == t@),
{
    let a = chars_of(s);
    let b = chars_of(t);
    chars_equal(&a, &b)
}

/// Whether the string `s` begins with the string `prefix`.
pub fn str_starts_with(s: &str, prefix: &str) -> (r: bool)
    ensures
        r == has_prefix(s@, prefix@),
{
    let a = chars_of(s);
    let b = chars_of(prefix);
    starts_with_chars(&a, &b)
}

/// The first whitespace-separated word of `s`, as a new string, or `None`
/// when `s` holds only whitespace.
pub fn first_word_of(s: &str) -> (r: Option<String>)
    ensures
        match r {
            Some(w) => first_word(s@) == Some(w@),
            None => first_word(s@) is None,
        },
{
    let cs = chars_of(s);
    let len = cs.len();
    let mut i: usize = 0;
    assert(cs@.skip(0) =~= cs@);
    while i < len && is_white_space(cs[i])
        invariant
            len == cs@.len(),
            i <= len,
            skip_white_space(cs@) == skip_white_space(cs@.skip(i as int)),
        decreases len - i,
    {
        assert(cs@.skip(i as int).drop_first() =~= cs@.skip(i + 1));
        i = i + 1;
    }
    if i == len {
        return None;
    }
    assert(skip_white_space(cs@.skip(i as int)) == cs@.skip(i as int));
    let mut out = String::new();
    let mut j: usize = i;
    while j < len && !is_white_space(cs[j])
        invariant
            len == cs@.len(),
            i <= j <= len,
            leading_word(cs@.skip(i as int)) == out@ + leading_word(cs@.skip(j as int)),
        decreases len - j,
    {
        assert(cs@.skip(j as int).drop_first() =~= cs@.skip(j + 1));
        assert(leading_word(cs@.skip(j as int)) == seq![cs@[j as int]] + leading_word(
            cs@.skip(j + 1),
        ));
        let ghost before = out@;
        push_char(&mut out, cs[j]);
        assert(out@ + leading_word(cs@.skip(j + 1)) =~= before + (seq![cs@[j as int]]
            + leading_word(cs@.skip(j + 1))));
        j = j + 1;
    }
    assert(out@ + leading_word(cs@.skip(j as int)) =~= out@);
    Some(out)
}

} // verus!
