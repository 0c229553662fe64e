use vstd::prelude::*;
use crate::words::{split_words, strs_view, words};

verus! {

/// Why a request is refused.
#[derive(Debug, Clone, Copy, PartialEq, Eq, Structural)]
pub enum RequestError {
    FailedToParse,
    UnknownCommand,
}

impl<'a> From<Option<&'a str>> for RequestError {
    fn from(_value: Option<&'a str>) -> (e: Self) {
        RequestError::FailedToParse
    }
}

impl<'a> vstd::std_specs::convert::FromSpecImpl<Option<&'a str>> for RequestError {
    open spec fn obeys_from_spec() -> bool {
        true
    }

    open spec fn from_spec(_value: Option<&'a str>) -> Self {
        RequestError::FailedToParse
    }
}

/// A request split into its command and the command's arguments.
pub struct ParsedRequest<'a> {
    pub command: &'a str,
    pub args: Vec<&'a str>,
}

/// The commands that the server answers.
pub open spec fn is_known_command(w: Seq<char>) -> bool {
    w == "LOOKUP"@ || w == "PING"@ || w == "UPDATE"@ || w == "CREATE"@
}

/// Splits a request into its command, the first word, and the command's
/// arguments, the words after it. A request without a word is refused.
pub fn select_request(request: &str) -> (r: Result<ParsedRequest<'_>, RequestError>)
    ensures
        match r {
            Ok(p) => {
                &&& words(request@).len() > 0
                &&& p.command@ == words(request@)[0]
                &&& strs_view(p.args@) == words(request@).subrange(
                    1,
                    words(request@).len() as int,
                )
            },
            Err(e) => words(request@).len() == 0 && e == RequestError::FailedToParse,
        },
{
    let mut parts = split_words(request);
    assert(strs_view(parts@).len() == parts@.len());
    if parts.len() == 0 {
        return Err(RequestError::FailedToParse);
    }
    let ghost all = strs_view(parts@);
    let command = parts.remove(0);
    assert(strs_view(parts@) =~= all.subrange(1, all.len() as int));
    Ok(ParsedRequest { command, args: parts })
}

/// Checks that a request names a command that the server answers: `LOOKUP`,
/// `PING`, `UPDATE` or `CREATE`, written so.
pub fn request_router(request: &str) -> (r: Result<(), RequestError>)
    ensures
        r.is_ok() <==> words(request@).len() > 0 && is_known_command(words(request@)[0]),
        r == Err::<(), RequestError>(RequestError::FailedToParse) <==> words(request@).len()
            == 0,
        r == Err::<(), RequestError>(RequestError::UnknownCommand) <==> words(request@).len()
            > 0 && !is_known_command(words(request@)[0]),
{
    let parsed = match select_request(request) {
        Ok(p) => p,
        Err(e) => {
            return Err(e);
        },
    };
    let c = parsed.command;
    if c.eq("LOOKUP") || c.eq("PING") || c.eq("UPDATE") || c.eq("CREATE") {
        Ok(())
    } else {
        Err(RequestError::UnknownCommand)
    }
}

} // verus!
