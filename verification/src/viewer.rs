use vstd::prelude::*;
use tokio::sync::mpsc::UnboundedReceiver;
use crate::level::{LevelFilter, UiMode};
use crate::store::{get_visible_logs, keep_last, plain_lines, visible_lines, ProcessLog};
use crate::text::{join_lines, join_with_newlines, strings_view};
use crate::view::{window_end, window_start, LogViewState, Thumb};

verus! {

/// The receiving end of tokio's unbounded channel.
#[verifier::external_type_specification]
#[verifier::external_body]
#[verifier::reject_recursive_types(T)]
pub struct ExUnboundedReceiver<T>(tokio::sync::mpsc::UnboundedReceiver<T>);

/// A key press, as far as the viewer tells keys apart.
#[derive(Clone, Copy, PartialEq, Eq, Debug, Structural)]
pub enum Key {
    Up,
    Down,
    PageUp,
    PageDown,
    Home,
    End,
    Enter,
    Esc,
    Backspace,
    Char(char),
    Other,
}

/// What the caller has to do after a key was handled.
#[derive(PartialEq, Eq, Debug)]
pub enum Action {
    /// Nothing: draw the next frame.
    Continue,
    /// Leave the loop.
    Quit,
    /// Put the text on the clipboard.
    Copy(String),
}

/// An `Action` with its text as characters.
pub enum ActionView {
    Continue,
    Quit,
    Copy(Seq<char>),
}

impl View for Action {
    type V = ActionView;

    open spec fn view(&self) -> ActionView {
        match self {
            Action::Continue => ActionView::Continue,
            Action::Quit => ActionView::Quit,
            Action::Copy(text) => ActionView::Copy(text@),
        }
    }
}

/// One process as the viewer's rules see it.
pub struct ProcessView {
    pub name: Seq<char>,
    pub command: Seq<char>,
    pub lines: Seq<Seq<char>>,
    pub capacity: nat,
}

/// The viewer's whole state as its rules see it.
pub struct ViewerView {
    pub processes: Seq<ProcessView>,
    pub views: Seq<LogViewState>,
    pub selected: nat,
    pub ui_mode: UiMode,
    pub filter_input: Seq<char>,
    pub level_filter: LevelFilter,
}

/// The log viewer: the supervised processes with their buffers, one view per
/// process, the selected process, and the filters, which all processes share.
pub struct Viewer {
    pub processes: Vec<ProcessLog>,
    pub views: Vec<LogViewState>,
    pub selected: usize,
    pub ui_mode: UiMode,
    pub filter_input: String,
    pub level_filter: LevelFilter,
}

impl View for ProcessLog {
    type V = ProcessView;

    open spec fn view(&self) -> ProcessView {
        ProcessView {
            name: self.name@,
            command: self.command@,
            lines: self.lines(),
            capacity: self.capacity as nat,
        }
    }
}

impl View for Viewer {
    type V = ViewerView;

    open spec fn view(&self) -> ViewerView {
        ViewerView {
            processes: Seq::new(self.processes@.len(), |i: int| self.processes@[i]@),
            views: self.views@,
            selected: self.selected as nat,
            ui_mode: self.ui_mode,
            filter_input: self.filter_input@,
            level_filter: self.level_filter,
        }
    }
}

/// Index of the first process from `from` on that has the name, if any has.
pub open spec fn first_named(procs: Seq<ProcessView>, name: Seq<char>, from: int) -> Option<int>
    decreases procs.len() - from,
{
    if from < 0 || from >= procs.len() {
        None
    } else if procs[from].name == name {
        Some(from)
    } else {
        first_named(procs, name, from + 1)
    }
}

impl ViewerView {
    /// One view per process; a view that follows is not scrolled back; no
    /// buffer is over its capacity; the selection names a process, or is 0
    /// where there is none.
    pub open spec fn wf(self) -> bool {
        &&& self.views.len() == self.processes.len()
        &&& forall|i: int| 0 <= i < self.views.len() ==> (#[trigger] self.views[i]).wf()
        &&& forall|i: int|
            0 <= i < self.processes.len() ==> (#[trigger] self.processes[i]).lines.len()
                <= self.processes[i].capacity
        &&& (self.selected < self.processes.len() || self.selected == 0)
    }

    /// The stored lines of the selected process; none where there is no process.
    pub open spec fn selected_lines(self) -> Seq<Seq<char>> {
        if self.selected < self.processes.len() {
            self.processes[self.selected as int].lines
        } else {
            Seq::empty()
        }
    }

    /// The lines of the selected process that pass the filters.
    pub open spec fn filtered(self) -> Seq<Seq<char>> {
        visible_lines(self.selected_lines(), self.level_filter, self.filter_input)
    }

    /// The view of the selected process; that of a new process where there
    /// is no process.
    pub open spec fn selected_view(self) -> LogViewState {
        if self.selected < self.views.len() {
            self.views[self.selected as int]
        } else {
            LogViewState { scroll: 0, tail: true }
        }
    }

    /// The lines that a log panel of `height` rows shows.
    pub open spec fn frame(self, height: nat) -> Seq<Seq<char>> {
        let total = self.filtered().len();
        let end = window_end(total, self.selected_view().effective_scroll());
        let start = window_start(end, height);
        self.filtered().subrange(start as int, end as int)
    }

    /// The text that a copy puts on the clipboard: the plain text of the lines
    /// that pass the filters, one per line.
    pub open spec fn export_text(self) -> Seq<char> {
        join_lines(plain_lines(self.filtered()))
    }

    /// The state with the view of the selected process replaced.
    pub open spec fn with_view(self, view: LogViewState) -> ViewerView {
        if self.selected < self.views.len() {
            ViewerView { views: self.views.update(self.selected as int, view), ..self }
        } else {
            self
        }
    }

    /// The state after a line for the process `name` came in: it is appended
    /// to the buffer of the first process of that name, from which the oldest
    /// line leaves where it was full; where no process has that name, nothing
    /// changes.
    pub open spec fn appended(self, name: Seq<char>, line: Seq<char>) -> ViewerView {
        match first_named(self.processes, name, 0) {
            None => self,
            Some(k) => {
                let p = self.processes[k];
                ViewerView {
                    processes: self.processes.update(
                        k,
                        ProcessView { lines: keep_last(p.lines.push(line), p.capacity), ..p },
                    ),
                    ..self
                }
            },
        }
    }

    /// The state after the lines of `messages` came in, each under its
    /// process name, one after the other.
    pub open spec fn appended_all(self, messages: Seq<(Seq<char>, Seq<char>)>) -> ViewerView
        decreases messages.len(),
    {
        if messages.len() == 0 {
            self
        } else {
            self.appended_all(messages.drop_last()).appended(
                messages.last().0,
                messages.last().1,
            )
        }
    }

    /// `after` is what `self` becomes when some `count` lines come in.
    pub open spec fn took(self, after: ViewerView, count: nat) -> bool {
        exists|messages: Seq<(Seq<char>, Seq<char>)>|
            messages.len() == count && #[trigger] self.appended_all(messages) == after
    }

    /// The state after a key press.
    pub open spec fn after_key(self, key: Key) -> ViewerView {
        match self.ui_mode {
            UiMode::Normal => match key {
                Key::Up => if self.selected > 0 {
                    ViewerView { selected: (self.selected - 1) as nat, ..self }
                } else {
                    self
                },
                Key::Down => if self.selected + 1 < self.processes.len() {
                    ViewerView { selected: (self.selected + 1) as nat, ..self }
                } else {
                    self
                },
                Key::PageUp => self.with_view(
                    self.selected_view().paged_up(self.filtered().len()),
                ),
                Key::PageDown => self.with_view(
                    self.selected_view().paged_down(self.filtered().len()),
                ),
                Key::Home => self.with_view(LogViewState { scroll: 0, tail: false }),
                Key::End => self.with_view(LogViewState { scroll: 0, tail: true }),
                Key::Char(c) => if c == 't' {
                    self.with_view(self.selected_view().tail_toggled())
                } else if c == '/' {
                    ViewerView {
                        ui_mode: UiMode::FilterInput,
                        filter_input: Seq::empty(),
                        ..self
                    }
                } else if c == 'l' {
                    ViewerView { level_filter: self.level_filter.next_spec(), ..self }
                } else {
                    self
                },
                _ => self,
            },
            UiMode::FilterInput => match key {
                Key::Enter => ViewerView { ui_mode: UiMode::Normal, ..self },
                Key::Esc => ViewerView {
                    ui_mode: UiMode::Normal,
                    filter_input: Seq::empty(),
                    ..self
                },
                Key::Backspace => if self.filter_input.len() > 0 {
                    ViewerView { filter_input: self.filter_input.drop_last(), ..self }
                } else {
                    self
                },
                Key::Char(c) => ViewerView { filter_input: self.filter_input.push(c), ..self },
                _ => self,
            },
        }
    }

    /// What a key press asks of the caller.
    pub open spec fn action_of(self, key: Key) -> ActionView {
        if self.ui_mode == UiMode::Normal && key == Key::Char('q') {
            ActionView::Quit
        } else if self.ui_mode == UiMode::Normal && key == Key::Char('c') {
            ActionView::Copy(self.export_text())
        } else {
            ActionView::Continue
        }
    }
}

/// Where no process from `from` on has the name, none is found.
pub proof fn lemma_first_named_none(procs: Seq<ProcessView>, name: Seq<char>, from: int)
    requires
        0 <= from,
        forall|i: int| from <= i < procs.len() ==> (#[trigger] procs[i]).name != name,
    ensures
        first_named(procs, name, from).is_none(),
    decreases procs.len() - from,
{
    if from < procs.len() {
        lemma_first_named_none(procs, name, from + 1);
    }
}

/// A process that is found has the name, and none before it has.
pub proof fn lemma_first_named_some(procs: Seq<ProcessView>, name: Seq<char>, from: int)
    requires
        0 <= from,
    ensures
        first_named(procs, name, from) matches Some(k) ==> from <= k < procs.len()
            && procs[k].name == name && forall|i: int| from <= i < k ==> procs[i].name != name,
    decreases procs.len() - from,
{
    if from < procs.len() && procs[from].name != name {
        lemma_first_named_some(procs, name, from + 1);
    }
}

/// A line for a name that no process has changes nothing: every buffer, every
/// view and the filters stay as they are.
pub proof fn lemma_append_unknown_name(s: ViewerView, name: Seq<char>, line: Seq<char>)
    requires
        forall|i: int| 0 <= i < s.processes.len() ==> (#[trigger] s.processes[i]).name != name,
    ensures
        s.appended(name, line) == s,
{
    lemma_first_named_none(s.processes, name, 0);
}

/// A line that comes in changes one buffer at most, and no view: a view that
/// follows the newest line uses offset 0 before and after, and the panel ends
/// at the newest line that passes the filters.
pub proof fn lemma_append_keeps_tail(
    s: ViewerView,
    name: Seq<char>,
    line: Seq<char>,
    height: nat,
)
    ensures
        s.wf() ==> s.appended(name, line).wf(),
        s.appended(name, line).views == s.views,
        s.appended(name, line).selected == s.selected,
        forall|i: int|
            0 <= i < s.views.len() && s.views[i].tail ==> (#[trigger] s.appended(
                name,
                line,
            ).views[i]).effective_scroll() == 0,
        forall|i: int|
            0 <= i < s.processes.len() && first_named(s.processes, name, 0) != Some(i)
                ==> #[trigger] s.appended(name, line).processes[i] == s.processes[i],
        s.selected_view().tail ==> s.appended(name, line).frame(height) == ({
            let shown = s.appended(name, line).filtered();
            shown.subrange(window_start(shown.len(), height) as int, shown.len() as int)
        }),
{
    lemma_first_named_some(s.processes, name, 0);
}

/// Lines that come in, however many, change no view, no filter and not the
/// selection, add and remove no process, and leave a well-formed state well
/// formed.
pub proof fn lemma_appended_all(s: ViewerView, messages: Seq<(Seq<char>, Seq<char>)>)
    ensures
        s.appended_all(messages).views == s.views,
        s.appended_all(messages).selected == s.selected,
        s.appended_all(messages).ui_mode == s.ui_mode,
        s.appended_all(messages).filter_input == s.filter_input,
        s.appended_all(messages).level_filter == s.level_filter,
        s.appended_all(messages).processes.len() == s.processes.len(),
        s.wf() ==> s.appended_all(messages).wf(),
    decreases messages.len(),
{
    if messages.len() > 0 {
        let before = s.appended_all(messages.drop_last());
        lemma_appended_all(s, messages.drop_last());
        lemma_append_keeps_tail(before, messages.last().0, messages.last().1, 0);
        lemma_first_named_some(before.processes, messages.last().0, 0);
    }
}

/// A key press leaves a well-formed state well formed.
pub proof fn lemma_after_key_wf(s: ViewerView, key: Key)
    requires
        s.wf(),
    ensures
        s.after_key(key).wf(),
        s.after_key(key).processes == s.processes,
{
}

/// Only `q` in normal mode asks to quit, and only `c` in normal mode asks for
/// a copy; the filter line takes both as text.
pub proof fn lemma_actions(s: ViewerView, key: Key)
    ensures
        s.action_of(key) is Quit <==> s.ui_mode == UiMode::Normal && key == Key::Char('q'),
        s.action_of(key) is Copy <==> s.ui_mode == UiMode::Normal && key == Key::Char('c'),
        s.action_of(key) matches ActionView::Copy(text) ==> text == s.export_text(),
        !(s.action_of(key) is Continue) ==> s.after_key(key) == s,
{
}

/// `UnboundedReceiver::try_recv` of tokio: the message at the head of the
/// queue, or none where the queue is empty or closed. What is queued depends
/// on the senders: nothing is claimed of the message.
#[verifier::external_body]
fn try_next(rx: &mut UnboundedReceiver<(String, String)>) -> (message: Option<(String, String)>) {
    rx.try_recv().ok()
}

impl Viewer {
    /// The state is well formed as its view is.
    pub open spec fn wf(&self) -> bool {
        self@.wf()
    }

    /// A viewer without processes, in normal mode, with no filter set.
    pub fn new() -> (v: Self)
        ensures
            v.wf(),
            v@ == (ViewerView {
                processes: Seq::empty(),
                views: Seq::empty(),
                selected: 0,
                ui_mode: UiMode::Normal,
                filter_input: Seq::empty(),
                level_filter: LevelFilter::All,
            }),
    {
        let v = Viewer {
            processes: Vec::new(),
            views: Vec::new(),
            selected: 0,
            ui_mode: UiMode::Normal,
            filter_input: String::new(),
            level_filter: LevelFilter::All,
        };
        assert(v@.processes =~= Seq::<ProcessView>::empty());
        assert(v@.views =~= Seq::<LogViewState>::empty());
        v
    }

    /// Adds a process behind those that are there, with an empty buffer of
    /// the given capacity and a view that follows the newest line.
    pub fn add_process(&mut self, name: String, command: String, capacity: usize)
        ensures
            old(self).wf() ==> final(self).wf(),
            final(self)@ == (ViewerView {
                processes: old(self)@.processes.push(
                    ProcessView {
                        name: name@,
                        command: command@,
                        lines: Seq::empty(),
                        capacity: capacity as nat,
                    },
                ),
                views: old(self)@.views.push(LogViewState { scroll: 0, tail: true }),
                ..old(self)@
            }),
    {
        let p = ProcessLog::new(name, command, capacity);
        self.processes.push(p);
        self.views.push(LogViewState::new());
        assert(self@.processes =~= old(self)@.processes.push(p@));
    }

    /// Number of processes.
    pub fn process_count(&self) -> (n: usize)
        ensures
            n == self@.processes.len(),
    {
        self.processes.len()
    }

    /// Takes in one line that the process `name` wrote. It goes to the end of
    /// the buffer of the first process of that name, and the oldest line
    /// leaves where the buffer was full. A line for a name that no process
    /// has is dropped. No view changes.
    pub fn append(&mut self, name: &str, line: String)
        ensures
            old(self).wf() ==> final(self).wf(),
            final(self)@ == old(self)@.appended(name@, line@),
    {
        let n = self.processes.len();
        let mut i: usize = 0;
        while i < n
            invariant
                *self == *old(self),
                n == self.processes@.len(),
                i <= n,
                first_named(self@.processes, name@, 0) == first_named(
                    self@.processes,
                    name@,
                    i as int,
                ),
            decreases n - i,
        {
            if self.processes[i].name.as_str().eq(name) {
                let ghost before = self@;
                self.processes[i].push_line(line);
                proof {
                    let p = before.processes[i as int];
                    assert(self@.processes =~= before.processes.update(
                        i as int,
                        ProcessView { lines: keep_last(p.lines.push(line@), p.capacity), ..p },
                    ));
                }
                return ;
            }
            i += 1;
        }
    }

    /// Takes in the lines that are queued on the channel, each under the
    /// process name that it came with, and stops when the queue is empty or
    /// closed, or after `limit` lines. Returns how many it took.
    pub fn drain(
        &mut self,
        rx: &mut UnboundedReceiver<(String, String)>,
        limit: usize,
    ) -> (taken: usize)
        ensures
            taken <= limit,
            old(self)@.took(final(self)@, taken as nat),
            old(self).wf() ==> final(self).wf(),
    {
        let ghost mut messages: Seq<(Seq<char>, Seq<char>)> = Seq::empty();
        let mut taken: usize = 0;
        while taken < limit
            invariant
                taken <= limit,
                messages.len() == taken,
                old(self)@.appended_all(messages) == self@,
                old(self).wf() ==> self.wf(),
            decreases limit - taken,
        {
            match try_next(rx) {
                Some((name, line)) => {
                    proof {
                        let next = messages.push((name@, line@));
                        assert(next.drop_last() =~= messages);
                        messages = next;
                    }
                    self.append(name.as_str(), line);
                    taken += 1;
                },
                None => {
                    break ;
                },
            }
        }
        taken
    }

    /// Number of lines of the selected process that pass the filters.
    pub fn filtered_count(&self) -> (n: usize)
        ensures
            n == self@.filtered().len(),
    {
        if self.selected < self.processes.len() {
            let lines = get_visible_logs(
                &self.processes[self.selected],
                self.level_filter,
                self.filter_input.as_str(),
                false,
            );
            assert(strings_view(lines@).len() == lines@.len());
            lines.len()
        } else {
            proof {
                reveal(Seq::filter);
            }
            0
        }
    }

    /// Handles one key press: changes the state as the mode's key bindings
    /// say, and tells the caller what is left for it to do.
    ///
    /// In normal mode: up and down move the selection, within the list; page
    /// up and page down scroll the selected view by a page and stop it
    /// following; home goes to offset 0 without following; end follows the
    /// newest line; `t` turns following on or off; `/` opens the filter line,
    /// empty; `l` goes to the next level; `c` asks for a copy of the shown
    /// lines as plain text; `q` asks to quit. In the filter line: a character
    /// is added, backspace takes the last one away, enter keeps the text and
    /// escape clears it, and both go back to normal mode. Any other key
    /// changes nothing.
    pub fn handle_key(&mut self, key: Key) -> (action: Action)
        ensures
            old(self).wf() ==> final(self).wf(),
            final(self)@ == old(self)@.after_key(key),
            action@ == old(self)@.action_of(key),
    {
        assert(self@.processes.len() == self.processes@.len());
        match self.ui_mode {
            UiMode::Normal => match key {
                Key::Up => {
                    if self.selected > 0 {
                        self.selected -= 1;
                    }
                    Action::Continue
                },
                Key::Down => {
                    if self.processes.len() > 0 && self.selected < self.processes.len() - 1 {
                        self.selected += 1;
                    }

                    Action::Continue
                },
                Key::PageUp => {
                    if self.selected < self.views.len() {
                        let total = self.filtered_count();
                        let view = self.views[self.selected].page_up(total);
                        self.views.set(self.selected, view);
                    }
                    Action::Continue
                },
                Key::PageDown => {
                    if self.selected < self.views.len() {
                        let total = self.filtered_count();
                        let view = self.views[self.selected].page_down(total);
                        self.views.set(self.selected, view);
                    }
                    Action::Continue
                },
                Key::Home => {
                    if self.selected < self.views.len() {
                        let view = self.views[self.selected].home();
                        self.views.set(self.selected, view);
                    }
                    Action::Continue
                },
                Key::End => {
                    if self.selected < self.views.len() {
                        let view = self.views[self.selected].end();
                        self.views.set(self.selected, view);
                    }
                    Action::Continue
                },
                Key::Char(c) => {
                    if c == 't' {
                        if self.selected < self.views.len() {
                            let view = self.views[self.selected].toggle_tail();
                            self.views.set(self.selected, view);
                        }
                        Action::Continue
                    } else if c == '/' {
                        self.ui_mode = UiMode::FilterInput;
                        self.filter_input = String::new();
                        Action::Continue
                    } else if c == 'l' {
                        self.level_filter = self.level_filter.next();
                        Action::Continue
                    } else if c == 'c' {
                        Action::Copy(self.export_text())
                    } else if c == 'q' {
                        Action::Quit
                    } else {
                        Action::Continue
                    }
                },
                _ => Action::Continue,
            },
            UiMode::FilterInput => match key {
                Key::Enter => {
                    self.ui_mode = UiMode::Normal;
                    Action::Continue
                },
                Key::Esc => {
                    self.filter_input = String::new();
                    self.ui_mode = UiMode::Normal;
                    Action::Continue
                },
                Key::Backspace => {
                    let _ = self.filter_input.pop();
                    Action::Continue
                },
                Key::Char(c) => {
                    self.filter_input.push(c);
                    Action::Continue
                },
                _ => Action::Continue,
            },
        }
    }

    /// The lines that a log panel of `height` rows shows, oldest first, as
    /// they are stored: of the lines of the selected process that pass the
    /// filters, the `height` that end where the view stands.
    pub fn frame(&self, height: usize) -> (out: Vec<String>)
        ensures
            strings_view(out@) == self@.frame(height as nat),
    {
        let mut out: Vec<String> = Vec::new();
        if self.selected >= self.processes.len() {
            proof {
                reveal(Seq::filter);
                assert(strings_view(out@) =~= self@.frame(height as nat));
            }
            return out;
        }
        let lines = get_visible_logs(
            &self.processes[self.selected],
            self.level_filter,
            self.filter_input.as_str(),
            false,
        );
        assert(strings_view(lines@).len() == lines@.len());
        let view = if self.selected < self.views.len() {
            self.views[self.selected]
        } else {
            LogViewState::new()
        };
        let w = view.window(lines.len(), height);
        let mut i: usize = w.start;
        while i < w.end
            invariant
                w.start <= i <= w.end <= lines@.len(),
                strings_view(out@) == strings_view(lines@).subrange(w.start as int, i as int),
            decreases w.end - i,
        {
            let ghost before = out@;
            out.push(lines[i].clone());
            assert(strings_view(out@) =~= strings_view(before).push(lines@[i as int]@));
            assert(strings_view(lines@).subrange(w.start as int, i + 1) =~= strings_view(
                lines@,
            ).subrange(w.start as int, i as int).push(lines@[i as int]@));
            i += 1;
        }
        out
    }

    /// The text that a copy puts on the clipboard: the plain text of the lines
    /// of the selected process that pass the filters, joined by line feeds.
    pub fn export_text(&self) -> (text: String)
        ensures
            text@ == self@.export_text(),
    {
        if self.selected < self.processes.len() {
            let lines = get_visible_logs(
                &self.processes[self.selected],
                self.level_filter,
                self.filter_input.as_str(),
                true,
            );
            join_with_newlines(&lines)
        } else {
            proof {
                reveal(Seq::filter);
                assert(plain_lines(self@.filtered()) =~= Seq::<Seq<char>>::empty());
            }
            String::new()
        }
    }

    /// The scrollbar's thumb for the selected process, for a log panel of
    /// `height` rows beside a bar of `bar_height` rows.
    pub fn scrollbar(&self, height: usize, bar_height: usize) -> (t: Thumb)
        ensures
            t.size == crate::view::thumb_size_spec(
                height as nat,
                bar_height as nat,
                self@.filtered().len(),
            ),
            t.position == crate::view::thumb_position_spec(
                self@.selected_view().effective_scroll(),
                height as nat,
                bar_height as nat,
                self@.filtered().len(),
            ),
    {
        let total = self.filtered_count();
        let view = if self.selected < self.views.len() {
            self.views[self.selected]
        } else {
            LogViewState::new()
        };
        view.thumb(total, height, bar_height)
    }
}

} // verus!
