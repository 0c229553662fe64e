use vstd::prelude::*;
use crate::ansi::{strip_ansi_chars, strip_ansi_spec};
use crate::level::LevelFilter;
use crate::text::chars_of;
use crate::words::{lemma_skip_spaces, lemma_word_end, skip_spaces, word_end, words, words_from};

verus! {

/// The lower-case form of a string as `str::to_lowercase` of std gives it.
pub uninterp spec fn lowercase_of(s: Seq<char>) -> Seq<char>;

/// `str::to_lowercase` of std: the result depends on the characters of the
/// argument alone; it is given the name `lowercase_of`.
pub assume_specification[ str::to_lowercase ](s: &str) -> (r: String)
    ensures
        r@ == lowercase_of(s@),
;

/// An ASCII capital letter becomes its small letter; every other character
/// stays as it is.
pub open spec fn ascii_lower(c: char) -> char {
    if 'A' <= c && c <= 'Z' {
        ((c as u8) + 32) as char
    } else {
        c
    }
}

/// `s` with each ASCII capital letter made small.
pub open spec fn ascii_lower_seq(s: Seq<char>) -> Seq<char> {
    Seq::new(s.len(), |i: int| ascii_lower(s[i]))
}

/// `needle` stands in `hay` at index `i`.
pub open spec fn occurs_at(hay: Seq<char>, needle: Seq<char>, i: int) -> bool {
    &&& 0 <= i
    &&& i + needle.len() <= hay.len()
    &&& forall|j: int| 0 <= j < needle.len() ==> hay[i + j] == needle[j]
}

/// `needle` stands somewhere in `hay`. The empty string stands in every string.
pub open spec fn is_substring(hay: Seq<char>, needle: Seq<char>) -> bool {
    exists|i: int| occurs_at(hay, needle, i)
}

/// The line's plain text names the level, in capital or small letters.
pub open spec fn level_matches(line: Seq<char>, lvl: LevelFilter) -> bool {
    lvl == LevelFilter::All || is_substring(
        ascii_lower_seq(strip_ansi_spec(line)),
        ascii_lower_seq(lvl.label()),
    )
}

/// The line's plain text holds the filter text, letter case aside. An empty
/// filter text admits every line.
pub open spec fn text_matches(line: Seq<char>, text: Seq<char>) -> bool {
    text.len() == 0 || is_substring(lowercase_of(strip_ansi_spec(line)), lowercase_of(text))
}

/// A line is shown when it passes the level filter and the text filter.
pub open spec fn is_visible_spec(line: Seq<char>, lvl: LevelFilter, text: Seq<char>) -> bool {
    level_matches(line, lvl) && text_matches(line, text)
}

pub fn to_ascii_lower(c: char) -> (r: char)
    ensures
        r == ascii_lower(c),
{
    if 'A' <= c && c <= 'Z' {
        ((c as u8) + 32) as char
    } else {
        c
    }
}

pub fn to_ascii_lower_chars(v: &[char]) -> (out: Vec<char>)
    ensures
        out@ == ascii_lower_seq(v@),
{
    let mut out: Vec<char> = Vec::new();
    let mut i: usize = 0;
    while i < v.len()
        invariant
            i <= v.len(),
            out@.len() == i,
            forall|k: int| 0 <= k < i ==> out@[k] == ascii_lower(v@[k]),
        decreases v.len() - i,
    {
        out.push(to_ascii_lower(v[i]));
        i += 1;
    }
    assert(out@ =~= ascii_lower_seq(v@));
    out
}

/// Whether `needle` stands somewhere in `hay`.
pub fn contains_chars(hay: &[char], needle: &[char]) -> (found: bool)
    ensures
        found == is_substring(hay@, needle@),
{
    let n = hay.len();
    let m = needle.len();
    if m > n {
        assert(forall|i: int| !occurs_at(hay@, needle@, i));
        return false;
    }
    let mut i: usize = 0;
    while i <= n - m
        invariant
            n == hay@.len(),
            m == needle@.len(),
            m <= n,
            i <= n - m + 1,
            forall|k: int| 0 <= k < i ==> !occurs_at(hay@, needle@, k),
        decreases n - m + 1 - i,
    {
        let mut j: usize = 0;
        while j < m && hay[i + j] == needle[j]
            invariant
                n == hay@.len(),
                m == needle@.len(),
                i + m <= n,
                j <= m,
                forall|k: int| 0 <= k < j ==> hay@[i + k] == needle@[k],
            decreases m - j,
        {
            j += 1;
        }
        if j == m {
            assert(occurs_at(hay@, needle@, i as int));
            return true;
        }
        assert(!occurs_at(hay@, needle@, i as int));
        i += 1;
    }
    assert(forall|k: int| !occurs_at(hay@, needle@, k));
    false
}

/// Whether the line names the level. The label may stand anywhere in the
/// line's plain text, as a word of its own or inside one, in capital or small
/// letters. `All` admits every line.
pub fn matches_level_filter(line: &str, lvl: LevelFilter) -> (r: bool)
    ensures
        r == level_matches(line@, lvl),
{
    if lvl == LevelFilter::All {
        return true;
    }
    let raw = chars_of(line);
    let plain = strip_ansi_chars(raw.as_slice());
    let hay = to_ascii_lower_chars(plain.as_slice());
    let label = chars_of(lvl.as_str());
    let needle = to_ascii_lower_chars(label.as_slice());
    contains_chars(hay.as_slice(), needle.as_slice())
}

/// Whether the line's plain text holds the filter text, letter case aside.
pub fn matches_text_filter(line: &str, text: &str) -> (r: bool)
    ensures
        r == text_matches(line@, text@),
{
    if text.is_empty() {
        return true;
    }
    let needle = text.to_lowercase();
    matches_folded_text(line, needle.as_str())
}

/// Whether the line's plain text, in lower case, holds `needle`.
pub fn matches_folded_text(line: &str, needle: &str) -> (r: bool)
    ensures
        r == is_substring(lowercase_of(strip_ansi_spec(line@)), needle@),
{
    let plain = crate::ansi::strip_ansi(line);
    let folded = plain.as_str().to_lowercase();
    let hay = chars_of(folded.as_str());
    let pat = chars_of(needle);
    contains_chars(hay.as_slice(), pat.as_slice())
}

/// Whether a line is shown under a level filter and a text filter.
pub fn is_visible(line: &str, lvl: LevelFilter, text: &str) -> (r: bool)
    ensures
        r == is_visible_spec(line@, lvl, text@),
{
    matches_level_filter(line, lvl) && matches_text_filter(line, text)
}

/// The line's plain text holds the level's label as a word of its own, in
/// capital or small letters.
pub open spec fn names_level_as_word(line: Seq<char>, lvl: LevelFilter) -> bool {
    exists|k: int|
        0 <= k < words(strip_ansi_spec(line)).len() && ascii_lower_seq(
            #[trigger] words(strip_ansi_spec(line))[k],
        ) == ascii_lower_seq(lvl.label())
}

/// Each word of a text stands in the text.
pub proof fn lemma_word_is_substring(s: Seq<char>, i: int, k: int)
    requires
        0 <= i,
        0 <= k < words_from(s, i).len(),
    ensures
        is_substring(s, words_from(s, i)[k]),
    decreases s.len() - i,
{
    let a = skip_spaces(s, i);
    lemma_skip_spaces(s, i);
    let b = word_end(s, a);
    lemma_word_end(s, a);
    if k == 0 {
        assert(occurs_at(s, s.subrange(a, b), a));
    } else {
        lemma_word_is_substring(s, b, k - 1);
    }
}

/// What stands in a text stands in it when both are written in small letters.
pub proof fn lemma_substring_ignoring_case(hay: Seq<char>, needle: Seq<char>)
    requires
        is_substring(hay, needle),
    ensures
        is_substring(ascii_lower_seq(hay), ascii_lower_seq(needle)),
{
    let i = choose|i: int| occurs_at(hay, needle, i);
    assert(occurs_at(ascii_lower_seq(hay), ascii_lower_seq(needle), i));
}

/// A line that holds the label as a word of its own, letter case aside,
/// passes the level filter: the test for the label anywhere in the line
/// covers the test for the label between white space.
pub proof fn lemma_level_word_matches(line: Seq<char>, lvl: LevelFilter)
    requires
        names_level_as_word(line, lvl),
    ensures
        level_matches(line, lvl),
{
    let plain = strip_ansi_spec(line);
    let k = choose|k: int|
        0 <= k < words(plain).len() && ascii_lower_seq(#[trigger] words(plain)[k])
            == ascii_lower_seq(lvl.label());
    lemma_word_is_substring(plain, 0, k);
    lemma_substring_ignoring_case(plain, words(plain)[k]);
}

/// With no level filter and no text filter every line is shown.
pub proof fn lemma_no_filter_shows_all(line: Seq<char>)
    ensures
        is_visible_spec(line, LevelFilter::All, Seq::<char>::empty()),
{
}

/// A line whose plain text does not hold the filter text is hidden, whatever
/// the level filter.
pub proof fn lemma_text_mismatch_hides(line: Seq<char>, lvl: LevelFilter, text: Seq<char>)
    requires
        !text_matches(line, text),
    ensures
        !is_visible_spec(line, lvl, text),
{
}

} // verus!
