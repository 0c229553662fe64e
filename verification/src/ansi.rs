use vstd::prelude::*;
use crate::text::{chars_of, string_of};

verus! {

/// The escape character that opens a terminal control sequence.
pub const ESC: char = '\u{1b}';

/// Index of the first `'m'` of `s` at or after `from`; `s.len()` if there is none.
pub open spec fn find_m(s: Seq<char>, from: int) -> int
    decreases s.len() - from,
{
    if from >= s.len() {
        s.len() as int
    } else if s[from] == 'm' {
        from
    } else {
        find_m(s, from + 1)
    }
}

/// A colour or style sequence starts at `i`: the escape character, an opening
/// bracket, and somewhere after them the closing `'m'`.
pub open spec fn starts_sequence(s: Seq<char>, i: int) -> bool {
    &&& 0 <= i
    &&& i + 1 < s.len()
    &&& s[i] == ESC
    &&& s[i + 1] == '['
    &&& find_m(s, i + 2) < s.len()
}

/// Index just behind the sequence that starts at `i`.
pub open spec fn sequence_end(s: Seq<char>, i: int) -> int {
    find_m(s, i + 2) + 1
}

/// `s` holds a complete colour or style sequence somewhere.
pub open spec fn has_sequence(s: Seq<char>) -> bool {
    exists|i: int| starts_sequence(s, i)
}

/// What is left of `s[i..]` when every sequence met while reading from `i`
/// on, left to right, is taken out. An opening without its closing `'m'` is
/// no sequence and stays.
pub open spec fn strip_from(s: Seq<char>, i: int) -> Seq<char>
    decreases s.len() - i,
    via strip_from_decreases
{
    if i < 0 || i >= s.len() {
        Seq::empty()
    } else if starts_sequence(s, i) {
        strip_from(s, sequence_end(s, i))
    } else {
        seq![s[i]] + strip_from(s, i + 1)
    }
}

#[via_fn]
proof fn strip_from_decreases(s: Seq<char>, i: int) {
    if 0 <= i {
        lemma_find_m_bounds(s, i + 2);
    }
}

/// The plain text of a line: the line without its colour and style sequences.
pub open spec fn strip_ansi_spec(s: Seq<char>) -> Seq<char> {
    strip_from(s, 0)
}

pub proof fn lemma_find_m_bounds(s: Seq<char>, from: int)
    requires
        0 <= from,
    ensures
        from <= find_m(s, from) || find_m(s, from) == s.len(),
        find_m(s, from) <= s.len(),
        find_m(s, from) < s.len() ==> s[find_m(s, from)] == 'm',
        forall|k: int| from <= k < find_m(s, from) && k < s.len() ==> s[k] != 'm',
    decreases s.len() - from,
{
    if from < s.len() && s[from] != 'm' {
        lemma_find_m_bounds(s, from + 1);
    }
}

/// Where no `'m'` is left from `from` on, none is left from any later index.
pub proof fn lemma_find_m_none_later(s: Seq<char>, from: int, later: int)
    requires
        0 <= from <= later,
        find_m(s, from) == s.len(),
    ensures
        find_m(s, later) == s.len(),
    decreases later - from,
{
    if from < later && from < s.len() {
        lemma_find_m_none_later(s, from + 1, later);
    } else if from >= s.len() {
        lemma_find_m_bounds(s, later);
    }
}

/// With no `'m'` from `i + 2` on, nothing from `i` on is taken out.
pub proof fn lemma_strip_plain_tail(s: Seq<char>, from: int, i: int)
    requires
        0 <= from <= i + 2,
        0 <= i <= s.len(),
        find_m(s, from) == s.len(),
    ensures
        strip_from(s, i) == s.subrange(i, s.len() as int),
    decreases s.len() - i,
{
    if i < s.len() {
        lemma_find_m_none_later(s, from, i + 2);
        lemma_strip_plain_tail(s, from, i + 1);
        assert(s.subrange(i, s.len() as int) =~= seq![s[i]] + s.subrange(i + 1, s.len() as int));
    } else {
        assert(s.subrange(i, s.len() as int) =~= Seq::<char>::empty());
    }
}

/// Reading from `i` on never yields more characters than are left.
pub proof fn lemma_strip_from_len(s: Seq<char>, i: int)
    requires
        0 <= i <= s.len(),
    ensures
        strip_from(s, i).len() <= s.len() - i,
    decreases s.len() - i,
{
    if i < s.len() {
        if starts_sequence(s, i) {
            lemma_find_m_bounds(s, i + 2);
            lemma_strip_from_len(s, sequence_end(s, i));
        } else {
            lemma_strip_from_len(s, i + 1);
        }
    }
}

/// Where a sequence starts at or after `i`, reading from `i` on yields fewer
/// characters than are left.
pub proof fn lemma_strip_from_shorter(s: Seq<char>, i: int, k: int)
    requires
        0 <= i <= k,
        starts_sequence(s, k),
    ensures
        strip_from(s, i).len() < s.len() - i,
    decreases s.len() - i,
{
    if starts_sequence(s, i) {
        lemma_find_m_bounds(s, i + 2);
        lemma_strip_from_len(s, sequence_end(s, i));
    } else {
        lemma_strip_from_shorter(s, i + 1, k);
    }
}

/// Where no sequence starts at or after `i`, reading from `i` on yields what
/// is left, as it is.
pub proof fn lemma_strip_from_clean(s: Seq<char>, i: int)
    requires
        0 <= i <= s.len(),
        forall|k: int| i <= k ==> !starts_sequence(s, k),
    ensures
        strip_from(s, i) == s.subrange(i, s.len() as int),
    decreases s.len() - i,
{
    if i < s.len() {
        lemma_strip_from_clean(s, i + 1);
        assert(s.subrange(i, s.len() as int) =~= seq![s[i]] + s.subrange(i + 1, s.len() as int));
    } else {
        assert(s.subrange(i, s.len() as int) =~= Seq::<char>::empty());
    }
}

/// Stripping leaves a line as it is exactly when the line holds no sequence.
pub proof fn lemma_strip_unchanged_iff_clean(s: Seq<char>)
    ensures
        strip_ansi_spec(s) == s <==> !has_sequence(s),
{
    if has_sequence(s) {
        let k = choose|k: int| starts_sequence(s, k);
        lemma_strip_from_shorter(s, 0, k);
    } else {
        lemma_strip_from_clean(s, 0);
        assert(s.subrange(0, s.len() as int) =~= s);
    }
}

/// A line without sequences comes back unchanged.
pub proof fn lemma_strip_unchanged(s: Seq<char>)
    requires
        !has_sequence(s),
    ensures
        strip_ansi_spec(s) == s,
{
    lemma_strip_unchanged_iff_clean(s);
}

/// Stripping twice gives what stripping once gives, for every line whose
/// plain text holds no sequence of its own. (Taking a sequence out can bring
/// an escape character and a bracket together that were apart before; on
/// such a line a second pass takes out more.)
pub proof fn lemma_strip_idempotent(s: Seq<char>)
    requires
        !has_sequence(strip_ansi_spec(s)),
    ensures
        strip_ansi_spec(strip_ansi_spec(s)) == strip_ansi_spec(s),
{
    lemma_strip_unchanged_iff_clean(strip_ansi_spec(s));
}

/// No escape character of `s` is followed at once by another.
pub open spec fn no_double_escape(s: Seq<char>) -> bool {
    forall|i: int| 0 <= i && i + 1 < s.len() ==> !(#[trigger] s[i] == ESC && s[i + 1] == ESC)
}

/// Where no `'m'` stands from `from` on, none is found.
pub proof fn lemma_find_m_none(s: Seq<char>, from: int)
    requires
        0 <= from,
        forall|k: int| from <= k < s.len() ==> s[k] != 'm',
    ensures
        find_m(s, from) == s.len(),
    decreases s.len() - from,
{
    if from < s.len() {
        lemma_find_m_none(s, from + 1);
    }
}

/// Putting a character in front moves the first `'m'` by one.
pub proof fn lemma_find_m_shift(c: char, t: Seq<char>, j: int)
    requires
        0 <= j,
    ensures
        find_m(seq![c] + t, j + 1) == find_m(t, j) + 1,
    decreases t.len() - j,
{
    let u = seq![c] + t;
    if j < t.len() {
        assert(u[j + 1] == t[j]);
        if t[j] != 'm' {
            lemma_find_m_shift(c, t, j + 1);
        }
    }
}

/// Putting a character in front moves each sequence by one.
pub proof fn lemma_starts_shift(c: char, t: Seq<char>, k: int)
    requires
        1 <= k,
    ensures
        starts_sequence(seq![c] + t, k) == starts_sequence(t, k - 1),
{
    let u = seq![c] + t;
    lemma_find_m_shift(c, t, k + 1);
    if k < t.len() {
        assert(u[k] == t[k - 1]);
        assert(u[k + 1] == t[k]);
    }
}

/// Where no escape character is followed at once by another, what is left
/// from `i` on holds no sequence.
pub proof fn lemma_strip_from_clean_output(s: Seq<char>, i: int)
    requires
        0 <= i <= s.len(),
        no_double_escape(s),
    ensures
        forall|k: int| !starts_sequence(strip_from(s, i), k),
    decreases s.len() - i,
{
    let t = strip_from(s, i);
    if i >= s.len() {
        assert(t.len() == 0);
        assert forall|k: int| !starts_sequence(t, k) by {}
    } else if starts_sequence(s, i) {
        lemma_find_m_bounds(s, i + 2);
        lemma_strip_from_clean_output(s, sequence_end(s, i));
        assert(t == strip_from(s, sequence_end(s, i)));
        assert forall|k: int| !starts_sequence(t, k) by {}
    } else {
        let rest = strip_from(s, i + 1);
        lemma_strip_from_clean_output(s, i + 1);
        assert forall|k: int| !starts_sequence(t, k) by {
            if k >= 1 {
                lemma_starts_shift(s[i], rest, k);
            } else if k == 0 && s[i] == ESC && i + 1 < s.len() {
                if s[i + 1] != '[' {
                    assert(s[i] == ESC && s[i + 1] != ESC);
                    assert(!starts_sequence(s, i + 1));
                    assert(rest[0] == s[i + 1]);
                    assert(t[1] == rest[0]);
                } else {
                    lemma_find_m_bounds(s, i + 2);
                    lemma_strip_plain_tail(s, i + 2, i);
                    assert forall|j: int| 2 <= j < t.len() implies t[j] != 'm' by {
                        assert(t[j] == s[i + j]);
                    }
                    lemma_find_m_none(t, 2);
                }
            }
        }
    }
}

/// Where no escape character is followed at once by another, the plain text
/// holds no sequence, and stripping it again changes nothing.
pub proof fn lemma_strip_idempotent_without_double_escape(s: Seq<char>)
    requires
        no_double_escape(s),
    ensures
        !has_sequence(strip_ansi_spec(s)),
        strip_ansi_spec(strip_ansi_spec(s)) == strip_ansi_spec(s),
{
    lemma_strip_from_clean_output(s, 0);
    lemma_strip_idempotent(s);
}

/// The plain text of a sequence of characters.
pub fn strip_ansi_chars(v: &[char]) -> (out: Vec<char>)
    ensures
        out@ == strip_ansi_spec(v@),
{
    let n = v.len();
    let mut out: Vec<char> = Vec::new();
    let mut i: usize = 0;
    // Set once an opening without a closing 'm' was met: the rest is plain.
    let mut plain_rest = false;
    while i < n
        invariant
            n == v@.len(),
            i <= n,
            out@ + strip_from(v@, i as int) == strip_ansi_spec(v@),
            plain_rest ==> exists|from: int| 0 <= from <= i + 2 && find_m(v@, from) == n,
        decreases n - i,
    {
        let mut removed = false;
        if !plain_rest && v[i] == ESC && i + 1 < n && v[i + 1] == '[' {
            let mut j: usize = i + 2;
            while j < n && v[j] != 'm'
                invariant
                    n == v@.len(),
                    i + 2 <= j <= n,
                    find_m(v@, i + 2) == find_m(v@, j as int),
                decreases n - j,
            {
                j += 1;
            }
            proof {
                lemma_find_m_bounds(v@, j as int);
            }
            if j < n {
                assert(starts_sequence(v@, i as int));
                i = j + 1;
                removed = true;
            } else {
                plain_rest = true;
            }
        }
        if !removed {
            proof {
                if plain_rest {
                    let from = choose|from: int| 0 <= from <= i + 2 && find_m(v@, from) == n;
                    lemma_find_m_none_later(v@, from, i + 2);
                }
                assert(!starts_sequence(v@, i as int));
                assert(out@.push(v@[i as int]) + strip_from(v@, i + 1) =~= out@ + strip_from(
                    v@,
                    i as int,
                ));
            }
            out.push(v[i]);
            i += 1;
        }
    }
    assert(out@ + Seq::<char>::empty() =~= out@);
    out
}

/// The plain text of a line: every sequence that starts with the escape
/// character and `[` and runs to the next `m` is taken out, and every other
/// character stays where it is.
pub fn strip_ansi(s: &str) -> (out: String)
    ensures
        out@ == strip_ansi_spec(s@),
{
    let v = chars_of(s);
    let plain = strip_ansi_chars(v.as_slice());
    string_of(plain.as_slice())
}

} // verus!
