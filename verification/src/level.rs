use vstd::prelude::*;

verus! {

/// Which key bindings apply: the viewer's own, or those of the filter line.
#[derive(Clone, Copy, PartialEq, Eq, Debug, Structural)]
pub enum UiMode {
    Normal,
    FilterInput,
}

/// The severity a line must name to be shown; `All` shows every line.
#[derive(Clone, Copy, PartialEq, Eq, Debug, Structural)]
pub enum LevelFilter {
    All,
    Trace,
    Info,
    Warn,
    Error,
    Fatal,
}

impl LevelFilter {
    /// The level that follows `self` in the cycle
    /// All, Trace, Info, Warn, Error, Fatal, All.
    pub open spec fn next_spec(self) -> LevelFilter {
        match self {
            LevelFilter::All => LevelFilter::Trace,
            LevelFilter::Trace => LevelFilter::Info,
            LevelFilter::Info => LevelFilter::Warn,
            LevelFilter::Warn => LevelFilter::Error,
            LevelFilter::Error => LevelFilter::Fatal,
            LevelFilter::Fatal => LevelFilter::All,
        }
    }

    /// The level's label, as log lines print it.
    pub open spec fn label(self) -> Seq<char> {
        match self {
            LevelFilter::All => "ALL"@,
            LevelFilter::Trace => "TRACE"@,
            LevelFilter::Info => "INFO"@,
            LevelFilter::Warn => "WARN"@,
            LevelFilter::Error => "ERROR"@,
            LevelFilter::Fatal => "FATAL"@,
        }
    }

    pub fn next(self) -> (r: Self)
        ensures
            r == self.next_spec(),
    {
        match self {
            LevelFilter::All => LevelFilter::Trace,
            LevelFilter::Trace => LevelFilter::Info,
            LevelFilter::Info => LevelFilter::Warn,
            LevelFilter::Warn => LevelFilter::Error,
            LevelFilter::Error => LevelFilter::Fatal,
            LevelFilter::Fatal => LevelFilter::All,
        }
    }

    pub fn as_str(&self) -> (r: &'static str)
        ensures
            r@ == self.label(),
    {
        match self {
            LevelFilter::All => "ALL",
            LevelFilter::Trace => "TRACE",
            LevelFilter::Info => "INFO",
            LevelFilter::Warn => "WARN",
            LevelFilter::Error => "ERROR",
            LevelFilter::Fatal => "FATAL",
        }
    }
}

/// The cycle of levels has no fixed point, visits every level, and is back
/// where it began after six steps.
pub proof fn lemma_level_cycle(l: LevelFilter)
    ensures
        l.next_spec() != l,
        l.next_spec().next_spec().next_spec().next_spec().next_spec().next_spec() == l,
        exists|p: LevelFilter| p.next_spec() == l,
{
    let p = l.next_spec().next_spec().next_spec().next_spec().next_spec();
    assert(p.next_spec() == l);
}

} // verus!
