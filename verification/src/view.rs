use vstd::prelude::*;

verus! {

/// Lines that one press of page-up or page-down moves the view by.
pub const PAGE_STEP: usize = 10;

/// Where one process's log panel stands: how many lines the view is scrolled
/// back from the newest shown line, and whether it follows the newest line.
#[derive(Clone, Copy, PartialEq, Eq, Debug, Structural)]
pub struct LogViewState {
    pub scroll: usize,
    pub tail: bool,
}

/// The lines of a filtered log that a panel shows: those from `start` up to,
/// not including, `end`.
#[derive(Clone, Copy, PartialEq, Eq, Debug, Structural)]
pub struct Window {
    pub start: usize,
    pub end: usize,
}

/// The scrollbar's thumb: its length in rows and the row it starts at.
#[derive(Clone, Copy, PartialEq, Eq, Debug, Structural)]
pub struct Thumb {
    pub size: u128,
    pub position: u128,
}

/// Last shown line (exclusive) of `total` lines scrolled back by `scroll`.
pub open spec fn window_end(total: nat, scroll: nat) -> nat {
    if scroll >= total {
        0
    } else {
        (total - scroll) as nat
    }
}

/// First shown line of a panel of `height` rows that ends at `end`.
pub open spec fn window_start(end: nat, height: nat) -> nat {
    if height >= end {
        0
    } else {
        (end - height) as nat
    }
}

/// `n / d` rounded to the nearest whole number, a half rounded up; 0 where
/// `d` is 0.
pub open spec fn round_div(n: nat, d: nat) -> nat {
    if d == 0 {
        0
    } else if 2 * (n % d) >= d {
        n / d + 1
    } else {
        n / d
    }
}

/// Length of the thumb: the share of the lines that the panel shows, taken
/// of the bar's rows, and no less than 1.
pub open spec fn thumb_size_spec(height: nat, bar_height: nat, total: nat) -> nat {
    let rows = round_div(height * bar_height, total);
    if rows < 1 {
        1
    } else {
        rows
    }
}

/// Row at which the thumb starts: the share of the scrollable lines that the
/// view is scrolled by, taken of the rows that the thumb leaves free.
pub open spec fn thumb_position_spec(
    scroll: nat,
    height: nat,
    bar_height: nat,
    total: nat,
) -> nat {
    let size = thumb_size_spec(height, bar_height, total);
    let room = if bar_height > size {
        (bar_height - size) as nat
    } else {
        0
    };
    let span = if total > height {
        (total - height) as nat
    } else {
        1
    };
    round_div(scroll * room, span)
}

impl LogViewState {
    /// While the view follows the newest line it is not scrolled back.
    pub open spec fn wf(self) -> bool {
        self.tail ==> self.scroll == 0
    }

    /// The offset that windowing uses: 0 while the view follows the newest
    /// line, the stored offset otherwise.
    pub open spec fn effective_scroll(self) -> nat {
        if self.tail {
            0
        } else {
            self.scroll as nat
        }
    }

    /// The view after a page up over a filtered log of `total` lines.
    pub open spec fn paged_up(self, total: nat) -> LogViewState {
        LogViewState {
            scroll: if self.effective_scroll() + PAGE_STEP >= total {
                total as usize
            } else {
                (self.effective_scroll() + PAGE_STEP) as usize
            },
            tail: false,
        }
    }

    /// The view after a page down over a filtered log of `total` lines.
    pub open spec fn paged_down(self, total: nat) -> LogViewState {
        LogViewState {
            scroll: if self.effective_scroll() <= PAGE_STEP {
                0
            } else if self.effective_scroll() - PAGE_STEP >= total {
                total as usize
            } else {
                (self.effective_scroll() - PAGE_STEP) as usize
            },
            tail: false,
        }
    }

    /// The view after following was turned on or off.
    pub open spec fn tail_toggled(self) -> LogViewState {
        if self.tail {
            LogViewState { scroll: self.scroll, tail: false }
        } else {
            LogViewState { scroll: 0, tail: true }
        }
    }

    /// The view of a new process: at the newest line, following it.
    pub fn new() -> (r: Self)
        ensures
            r == (LogViewState { scroll: 0, tail: true }),
            r.wf(),
    {
        LogViewState { scroll: 0, tail: true }
    }

    /// Scrolls back by one page over a filtered log of `total` lines, no
    /// further than its oldest line, and stops following.
    pub fn page_up(self, total: usize) -> (r: Self)
        ensures
            r == self.paged_up(total as nat),
            r.scroll <= total,
            r.wf(),
    {
        let from: usize = if self.tail {
            0
        } else {
            self.scroll
        };
        let scroll: usize = if from >= total || total - from <= PAGE_STEP {
            total
        } else {
            from + PAGE_STEP
        };
        LogViewState { scroll, tail: false }
    }

    /// Scrolls forward by one page over a filtered log of `total` lines, no
    /// further than its newest line, and stops following.
    pub fn page_down(self, total: usize) -> (r: Self)
        ensures
            r == self.paged_down(total as nat),
            r.scroll <= total,
            r.wf(),
    {
        let from: usize = if self.tail {
            0
        } else {
            self.scroll
        };
        let down: usize = if from <= PAGE_STEP {
            0
        } else {
            from - PAGE_STEP
        };
        let scroll: usize = if down >= total {
            total
        } else {
            down
        };
        LogViewState { scroll, tail: false }
    }

    /// Goes to offset 0 and stops following.
    pub fn home(self) -> (r: Self)
        ensures
            r == (LogViewState { scroll: 0, tail: false }),
            r.wf(),
    {
        LogViewState { scroll: 0, tail: false }
    }

    /// Goes to the newest line and follows it.
    pub fn end(self) -> (r: Self)
        ensures
            r == (LogViewState { scroll: 0, tail: true }),
            r.wf(),
    {
        LogViewState { scroll: 0, tail: true }
    }

    /// Turns following on if it is off, and off if it is on. Turning it on
    /// brings the view to the newest line; turning it off leaves the view
    /// where it is.
    pub fn toggle_tail(self) -> (r: Self)
        ensures
            r == self.tail_toggled(),
            self.wf() ==> r.wf(),
    {
        if self.tail {
            LogViewState { scroll: self.scroll, tail: false }
        } else {
            LogViewState { scroll: 0, tail: true }
        }
    }

    /// The lines of a filtered log of `total` lines that a panel of `height`
    /// rows shows: the newest line stands at the bottom when the view is not
    /// scrolled back, and nothing is shown when it is scrolled back past the
    /// oldest line.
    pub fn window(self, total: usize, height: usize) -> (w: Window)
        ensures
            w.end == window_end(total as nat, self.effective_scroll()),
            w.start == window_start(w.end as nat, height as nat),
            w.start <= w.end <= total,
            w.end - w.start <= height,
            self.tail ==> w.end == total,
    {
        let scroll: usize = if self.tail {
            0
        } else {
            self.scroll
        };
        let end: usize = if scroll >= total {
            0
        } else {
            total - scroll
        };
        let start: usize = if height >= end {
            0
        } else {
            end - height
        };
        Window { start, end }
    }

    /// The scrollbar's thumb for a panel of `height` rows and a bar of
    /// `bar_height` rows over a filtered log of `total` lines.
    pub fn thumb(self, total: usize, height: usize, bar_height: usize) -> (t: Thumb)
        ensures
            t.size == thumb_size_spec(height as nat, bar_height as nat, total as nat),
            t.position == thumb_position_spec(
                self.effective_scroll(),
                height as nat,
                bar_height as nat,
                total as nat,
            ),
            t.size >= 1,
    {
        let scroll: usize = if self.tail {
            0
        } else {
            self.scroll
        };
        assert(height * bar_height <= 0xffff_ffff_ffff_ffff * 0xffff_ffff_ffff_ffff)
            by (nonlinear_arith)
            requires
                height <= 0xffff_ffff_ffff_ffff,
                bar_height <= 0xffff_ffff_ffff_ffff,
        ;
        let rows = rounded_quotient((height as u128) * (bar_height as u128), total as u128);
        let size: u128 = if rows < 1 {
            1
        } else {
            rows
        };
        let room: u128 = if (bar_height as u128) > size {
            (bar_height as u128) - size
        } else {
            0
        };
        let span: usize = if total > height {
            total - height
        } else {
            1
        };
        assert(scroll * room <= 0xffff_ffff_ffff_ffff * 0xffff_ffff_ffff_ffff)
            by (nonlinear_arith)
            requires
                scroll <= 0xffff_ffff_ffff_ffff,
                room <= 0xffff_ffff_ffff_ffff,
        ;
        let position = rounded_quotient((scroll as u128) * room, span as u128);
        Thumb { size, position }
    }
}

impl Default for LogViewState {
    fn default() -> (r: Self)
        ensures
            r == (LogViewState { scroll: 0, tail: true }),
    {
        LogViewState { scroll: 0, tail: true }
    }
}

/// `n / d` rounded to the nearest whole number.
pub fn rounded_quotient(n: u128, d: u128) -> (q: u128)
    requires
        n <= 0xffff_ffff_ffff_ffff * 0xffff_ffff_ffff_ffff,
    ensures
        q == round_div(n as nat, d as nat),
{
    if d == 0 {
        return 0;
    }
    let whole: u128 = n / d;
    let rest: u128 = n % d;
    if rest >= d - rest {
        whole + 1
    } else {
        whole
    }
}

/// A view that follows the newest line shows the newest lines, whatever
/// number of lines the log has grown to.
pub proof fn lemma_tail_shows_newest(view: LogViewState, total: nat, height: nat)
    requires
        view.tail,
    ensures
        view.effective_scroll() == 0,
        window_end(total, view.effective_scroll()) == total,
        window_start(total, height) + height >= total,
{
}

} // verus!
