use vstd::prelude::*;
use std::collections::VecDeque;
use crate::ansi::{strip_ansi, strip_ansi_spec};
use crate::filter::{
    is_visible_spec, lowercase_of, matches_folded_text, matches_level_filter, text_matches,
};
use crate::level::LevelFilter;
use crate::text::strings_view;

verus! {

/// Lines that a process's buffer holds unless another capacity is asked for.
pub const DEFAULT_CAPACITY: usize = 10000;

/// One supervised command: its name, its command line, and the newest lines
/// that it has written, oldest first, as they came (colour codes included).
pub struct ProcessLog {
    pub name: String,
    pub command: String,
    pub logs: VecDeque<String>,
    pub capacity: usize,
}

/// The last `cap` items of `s`, or all of `s` where it holds no more.
pub open spec fn keep_last(s: Seq<Seq<char>>, cap: nat) -> Seq<Seq<char>> {
    if s.len() <= cap {
        s
    } else {
        s.subrange(s.len() - cap, s.len() as int)
    }
}

/// What a buffer of capacity `cap` that began as `start` holds after the
/// lines of `lines` were appended one after the other.
pub open spec fn after_appends(start: Seq<Seq<char>>, lines: Seq<Seq<char>>, cap: nat) -> Seq<
    Seq<char>,
>
    decreases lines.len(),
{
    if lines.len() == 0 {
        start
    } else {
        keep_last(after_appends(start, lines.drop_last(), cap).push(lines.last()), cap)
    }
}

/// The test that a line passes to be shown under a level and a text filter.
pub open spec fn visible_pred(lvl: LevelFilter, text: Seq<char>) -> spec_fn(Seq<char>) -> bool {
    |line: Seq<char>| is_visible_spec(line, lvl, text)
}

/// The lines of `lines` that are shown under the two filters, in order.
pub open spec fn visible_lines(lines: Seq<Seq<char>>, lvl: LevelFilter, text: Seq<char>) -> Seq<
    Seq<char>,
> {
    lines.filter(visible_pred(lvl, text))
}

/// The plain text of each line.
pub open spec fn plain_lines(lines: Seq<Seq<char>>) -> Seq<Seq<char>> {
    Seq::new(lines.len(), |i: int| strip_ansi_spec(lines[i]))
}

/// The shown lines as they are handed out: as stored, or as plain text.
pub open spec fn shown_lines(
    lines: Seq<Seq<char>>,
    lvl: LevelFilter,
    text: Seq<char>,
    plain: bool,
) -> Seq<Seq<char>> {
    if plain {
        plain_lines(visible_lines(lines, lvl, text))
    } else {
        visible_lines(lines, lvl, text)
    }
}

impl ProcessLog {
    /// The stored lines, oldest first.
    pub open spec fn lines(&self) -> Seq<Seq<char>> {
        strings_view(self.logs@)
    }

    /// The buffer holds no more lines than its capacity.
    pub open spec fn wf(&self) -> bool {
        self.logs@.len() <= self.capacity
    }

    /// A process that has written nothing yet.
    pub fn new(name: String, command: String, capacity: usize) -> (p: Self)
        ensures
            p.name == name,
            p.command == command,
            p.capacity == capacity,
            p.lines() == Seq::<Seq<char>>::empty(),
            p.wf(),
    {
        let p = ProcessLog { name, command, logs: VecDeque::new(), capacity };
        assert(p.lines() =~= Seq::<Seq<char>>::empty());
        p
    }

    /// Number of lines stored.
    pub fn len(&self) -> (n: usize)
        ensures
            n == self.lines().len(),
    {
        self.logs.len()
    }

    /// Appends a line; the oldest lines leave until the buffer is within
    /// its capacity again.
    pub fn push_line(&mut self, line: String)
        ensures
            final(self).wf(),
            final(self).lines() == keep_last(
                old(self).lines().push(line@),
                old(self).capacity as nat,
            ),
            final(self).name == old(self).name,
            final(self).command == old(self).command,
            final(self).capacity == old(self).capacity,
    {
        let ghost all = self.lines().push(line@);
        self.logs.push_back(line);
        assert(self.lines() =~= all);
        while self.logs.len() > self.capacity
            invariant
                self.name == old(self).name,
                self.command == old(self).command,
                self.capacity == old(self).capacity,
                self.logs@.len() <= all.len(),
                self.logs@.len() == all.len() || self.logs@.len() >= self.capacity,
                self.lines() == all.subrange(all.len() - self.logs@.len(), all.len() as int),
            decreases self.logs@.len(),
        {
            let ghost before = self.lines();
            let _ = self.logs.pop_front();
            assert(self.lines() =~= before.subrange(1, before.len() as int));
            assert(self.lines() =~= all.subrange(
                all.len() - self.logs@.len(),
                all.len() as int,
            ));
        }
        assert(self.lines() =~= keep_last(all, self.capacity as nat));
    }
}

/// A buffer that began empty holds, after any number of appends, the newest
/// lines appended, in the order in which they came: all of them while they are
/// no more than the capacity, and as many as the capacity after that.
pub proof fn lemma_bounded_buffer(lines: Seq<Seq<char>>, cap: nat)
    ensures
        after_appends(Seq::empty(), lines, cap) == keep_last(lines, cap),
        after_appends(Seq::empty(), lines, cap).len() == if lines.len() <= cap {
            lines.len()
        } else {
            cap
        },
    decreases lines.len(),
{
    if lines.len() > 0 {
        lemma_bounded_buffer(lines.drop_last(), cap);
        assert(lines.drop_last().push(lines.last()) =~= lines);
        assert(keep_last(keep_last(lines.drop_last(), cap).push(lines.last()), cap) =~= keep_last(
            lines,
            cap,
        ));
    }
}

/// Filtering one more line: it is added to the shown lines if it passes.
pub proof fn lemma_visible_push(
    lines: Seq<Seq<char>>,
    line: Seq<char>,
    lvl: LevelFilter,
    text: Seq<char>,
)
    ensures
        visible_lines(lines.push(line), lvl, text) == if is_visible_spec(line, lvl, text) {
            visible_lines(lines, lvl, text).push(line)
        } else {
            visible_lines(lines, lvl, text)
        },
{
    lines.lemma_filter_push(line, visible_pred(lvl, text));
}

/// Every shown line passes the filters.
pub proof fn lemma_visible_all_pass(lines: Seq<Seq<char>>, lvl: LevelFilter, text: Seq<char>)
    ensures
        forall|i: int|
            0 <= i < visible_lines(lines, lvl, text).len() ==> is_visible_spec(
                #[trigger] visible_lines(lines, lvl, text)[i],
                lvl,
                text,
            ),
{
    broadcast use vstd::seq_lib::group_filter_ensures;
}

/// Lines that all pass the filters are all shown.
pub proof fn lemma_visible_keeps_passing(lines: Seq<Seq<char>>, lvl: LevelFilter, text: Seq<char>)
    requires
        forall|i: int| 0 <= i < lines.len() ==> is_visible_spec(#[trigger] lines[i], lvl, text),
    ensures
        visible_lines(lines, lvl, text) == lines,
    decreases lines.len(),
{
    if lines.len() == 0 {
        reveal(Seq::filter);
    } else {
        lemma_visible_keeps_passing(lines.drop_last(), lvl, text);
        lemma_visible_push(lines.drop_last(), lines.last(), lvl, text);
        assert(lines.drop_last().push(lines.last()) =~= lines);
    }
}

/// Filtering what was filtered, with the same filters, changes nothing.
pub proof fn lemma_filter_idempotent(lines: Seq<Seq<char>>, lvl: LevelFilter, text: Seq<char>)
    ensures
        visible_lines(visible_lines(lines, lvl, text), lvl, text) == visible_lines(
            lines,
            lvl,
            text,
        ),
{
    lemma_visible_all_pass(lines, lvl, text);
    lemma_visible_keeps_passing(visible_lines(lines, lvl, text), lvl, text);
}

/// Under a text filter that no line's plain text holds, nothing is shown.
pub proof fn lemma_text_mismatch_shows_nothing(
    lines: Seq<Seq<char>>,
    lvl: LevelFilter,
    text: Seq<char>,
)
    requires
        forall|i: int| 0 <= i < lines.len() ==> !text_matches(#[trigger] lines[i], text),
    ensures
        visible_lines(lines, lvl, text).len() == 0,
    decreases lines.len(),
{
    if lines.len() == 0 {
        reveal(Seq::filter);
    } else {
        lemma_text_mismatch_shows_nothing(lines.drop_last(), lvl, text);
        lemma_visible_push(lines.drop_last(), lines.last(), lvl, text);
        assert(lines.drop_last().push(lines.last()) =~= lines);
    }
}

/// With no level filter and no text filter every line is shown.
pub proof fn lemma_no_filter_shows_all_lines(lines: Seq<Seq<char>>)
    ensures
        visible_lines(lines, LevelFilter::All, Seq::<char>::empty()) == lines,
{
    lemma_visible_keeps_passing(lines, LevelFilter::All, Seq::<char>::empty());
}

/// What is shown as plain text depends on the plain text of the stored lines
/// alone: two buffers whose lines differ in colour codes only give the same
/// plain lines under the same filters, and so the same exported text.
pub proof fn lemma_plain_output_ignores_codes(
    a: Seq<Seq<char>>,
    b: Seq<Seq<char>>,
    lvl: LevelFilter,
    text: Seq<char>,
)
    requires
        plain_lines(a) == plain_lines(b),
    ensures
        shown_lines(a, lvl, text, true) == shown_lines(b, lvl, text, true),
        crate::text::join_lines(shown_lines(a, lvl, text, true)) == crate::text::join_lines(
            shown_lines(b, lvl, text, true),
        ),
    decreases a.len(),
{
    assert(a.len() == plain_lines(a).len());
    assert(b.len() == plain_lines(b).len());
    if a.len() == 0 {
        reveal(Seq::filter);
        assert(a =~= b);
    } else {
        let a0 = a.drop_last();
        let b0 = b.drop_last();
        assert(plain_lines(a0) =~= plain_lines(a).drop_last());
        assert(plain_lines(b0) =~= plain_lines(b).drop_last());
        lemma_plain_output_ignores_codes(a0, b0, lvl, text);
        assert(strip_ansi_spec(a.last()) == plain_lines(a).last());
        assert(strip_ansi_spec(b.last()) == plain_lines(b).last());
        lemma_visible_push(a0, a.last(), lvl, text);
        lemma_visible_push(b0, b.last(), lvl, text);
        assert(a0.push(a.last()) =~= a);
        assert(b0.push(b.last()) =~= b);
        let va = visible_lines(a0, lvl, text);
        let vb = visible_lines(b0, lvl, text);
        assert(plain_lines(va.push(a.last())) =~= plain_lines(va).push(
            strip_ansi_spec(a.last()),
        ));
        assert(plain_lines(vb.push(b.last())) =~= plain_lines(vb).push(
            strip_ansi_spec(b.last()),
        ));
    }
}

/// The lines of a process that pass the level filter and the text filter, in
/// the order in which they are stored: as stored, colour codes included, or,
/// where `strip_ansi_toggle` is set, as plain text.
pub fn get_visible_logs(
    proc: &ProcessLog,
    level_filter: LevelFilter,
    text_filter: &str,
    strip_ansi_toggle: bool,
) -> (out: Vec<String>)
    ensures
        strings_view(out@) == shown_lines(
            proc.lines(),
            level_filter,
            text_filter@,
            strip_ansi_toggle,
        ),
{
    let mut out: Vec<String> = Vec::new();
    let search = text_filter.to_lowercase();
    let unfiltered = text_filter.is_empty();
    let n = proc.logs.len();
    let mut i: usize = 0;
    proof {
        reveal(Seq::filter);
        assert(proc.lines().take(0) =~= Seq::<Seq<char>>::empty());
        assert(strings_view(out@) =~= shown_lines(
            proc.lines().take(0),
            level_filter,
            text_filter@,
            strip_ansi_toggle,
        ));
    }
    while i < n
        invariant
            n == proc.logs@.len(),
            i <= n,
            search@ == lowercase_of(text_filter@),
            unfiltered == (text_filter@.len() == 0),
            strings_view(out@) == shown_lines(
                proc.lines().take(i as int),
                level_filter,
                text_filter@,
                strip_ansi_toggle,
            ),
        decreases n - i,
    {
        let ln = &proc.logs[i];
        let ghost seen = proc.lines().take(i as int);
        let ghost shown = visible_lines(seen, level_filter, text_filter@);
        proof {
            assert(proc.lines().take(i + 1) =~= seen.push(ln@));
            lemma_visible_push(seen, ln@, level_filter, text_filter@);
        }
        let passes = matches_level_filter(ln.as_str(), level_filter) && (unfiltered
            || matches_folded_text(ln.as_str(), search.as_str()));
        assert(passes == is_visible_spec(ln@, level_filter, text_filter@));
        if passes {
            let ghost before = out@;
            if strip_ansi_toggle {
                let plain = strip_ansi(ln.as_str());
                out.push(plain);
                assert(strings_view(out@) =~= strings_view(before).push(strip_ansi_spec(ln@)));
                assert(plain_lines(shown.push(ln@)) =~= plain_lines(shown).push(
                    strip_ansi_spec(ln@),
                ));
            } else {
                out.push(ln.clone());
                assert(strings_view(out@) =~= strings_view(before).push(ln@));
            }
        }
        i += 1;
    }
    assert(proc.lines().take(n as int) =~= proc.lines());
    out
}

} // verus!
