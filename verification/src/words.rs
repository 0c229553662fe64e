use vstd::prelude::*;
use crate::text::chars_of;

verus! {

/// White space as Unicode defines it (the property White_Space).
pub open spec fn is_space(c: char) -> bool {
    ||| '\u{9}' <= c && c <= '\u{d}'
    ||| c == ' '
    ||| c == '\u{85}'
    ||| c == '\u{a0}'
    ||| c == '\u{1680}'
    ||| '\u{2000}' <= c && c <= '\u{200a}'
    ||| c == '\u{2028}'
    ||| c == '\u{2029}'
    ||| c == '\u{202f}'
    ||| c == '\u{205f}'
    ||| c == '\u{3000}'
}

/// First index at or after `i` that holds no white space; `s.len()` if none.
pub open spec fn skip_spaces(s: Seq<char>, i: int) -> int
    decreases s.len() - i,
{
    if i >= s.len() {
        s.len() as int
    } else if !is_space(s[i]) {
        i
    } else {
        skip_spaces(s, i + 1)
    }
}

/// First index at or after `i` that holds white space; `s.len()` if none.
pub open spec fn word_end(s: Seq<char>, i: int) -> int
    decreases s.len() - i,
{
    if i >= s.len() {
        s.len() as int
    } else if is_space(s[i]) {
        i
    } else {
        word_end(s, i + 1)
    }
}

/// The words of `s` from index `i` on: the longest runs of characters that
/// are not white space, in order.
pub open spec fn words_from(s: Seq<char>, i: int) -> Seq<Seq<char>>
    decreases s.len() - i,
    via words_from_decreases
{
    let a = skip_spaces(s, i);
    if i < 0 || a >= s.len() {
        Seq::empty()
    } else {
        let b = word_end(s, a);
        seq![s.subrange(a, b)] + words_from(s, b)
    }
}

#[via_fn]
proof fn words_from_decreases(s: Seq<char>, i: int) {
    if i >= 0 {
        lemma_skip_spaces(s, i);
        lemma_word_end(s, skip_spaces(s, i));
    }
}

/// The words of a text.
pub open spec fn words(s: Seq<char>) -> Seq<Seq<char>> {
    words_from(s, 0)
}

/// The texts that a sequence of string slices holds.
pub open spec fn strs_view(v: Seq<&str>) -> Seq<Seq<char>> {
    Seq::new(v.len(), |i: int| v[i]@)
}

pub proof fn lemma_skip_spaces(s: Seq<char>, i: int)
    requires
        0 <= i,
    ensures
        i <= skip_spaces(s, i) || skip_spaces(s, i) == s.len(),
        skip_spaces(s, i) <= s.len(),
        skip_spaces(s, i) < s.len() ==> !is_space(s[skip_spaces(s, i)]),
    decreases s.len() - i,
{
    if i < s.len() && is_space(s[i]) {
        lemma_skip_spaces(s, i + 1);
    }
}

pub proof fn lemma_word_end(s: Seq<char>, i: int)
    requires
        0 <= i,
    ensures
        i <= word_end(s, i) || word_end(s, i) == s.len(),
        word_end(s, i) <= s.len(),
        i < s.len() && !is_space(s[i]) ==> i < word_end(s, i),
    decreases s.len() - i,
{
    if i < s.len() && !is_space(s[i]) {
        lemma_word_end(s, i + 1);
    }
}

/// Whether a character is white space.
pub fn is_whitespace(c: char) -> (r: bool)
    ensures
        r == is_space(c),
{
    ('\u{9}' <= c && c <= '\u{d}') || c == ' ' || c == '\u{85}' || c == '\u{a0}' || c
        == '\u{1680}' || ('\u{2000}' <= c && c <= '\u{200a}') || c == '\u{2028}' || c
        == '\u{2029}' || c == '\u{202f}' || c == '\u{205f}' || c == '\u{3000}'
}

/// The words of a text, each a slice of it.
pub fn split_words<'a>(text: &'a str) -> (out: Vec<&'a str>)
    ensures
        strs_view(out@) == words(text@),
{
    let chars = chars_of(text);
    let n = chars.len();
    let mut out: Vec<&'a str> = Vec::new();
    let mut i: usize = 0;
    assert(strs_view(out@) + words_from(text@, 0) =~= words(text@));
    loop
        invariant
            chars@ == text@,
            n == chars@.len(),
            i <= n,
            strs_view(out@) + words_from(text@, i as int) == words(text@),
        ensures
            strs_view(out@) == words(text@),
        decreases n - i,
    {
        let mut a: usize = i;
        while a < n && is_whitespace(chars[a])
            invariant
                chars@ == text@,
                n == chars@.len(),
                i <= a <= n,
                skip_spaces(text@, i as int) == skip_spaces(text@, a as int),
            decreases n - a,
        {
            a += 1;
        }
        if a >= n {
            assert(words_from(text@, i as int) =~= Seq::<Seq<char>>::empty());
            assert(strs_view(out@) + Seq::<Seq<char>>::empty() =~= strs_view(out@));
            break ;
        }
        let mut b: usize = a + 1;
        while b < n && !is_whitespace(chars[b])
            invariant
                chars@ == text@,
                n == chars@.len(),
                a < b <= n,
                !is_space(text@[a as int]),
                word_end(text@, a as int) == word_end(text@, b as int),
            decreases n - b,
        {
            b += 1;
        }
        let word = text.substring_char(a, b);
        proof {
            let before = strs_view(out@);
            assert(skip_spaces(text@, i as int) == a);
            assert(word_end(text@, a as int) == b);
            assert(words_from(text@, i as int) == seq![text@.subrange(a as int, b as int)]
                + words_from(text@, b as int));
            assert(before.push(word@) + words_from(text@, b as int) =~= before + words_from(
                text@,
                i as int,
            ));
        }
        let ghost before = out@;
        out.push(word);
        assert(strs_view(out@) =~= strs_view(before).push(word@));
        i = b;
    }
    out
}

} // verus!
