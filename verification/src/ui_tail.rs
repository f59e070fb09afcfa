//! The viewer of events for the user interface.
use vstd::prelude::*;

use crate::cli::option_view;
use crate::error::Error;
use crate::json::{json_parsed, json_pretty, Json};
use crate::text::{is_white_char, trim_end, trimmed_end, trimmed_end_is_tight};

verus! {

/// What the viewer prints for a line: nothing for an empty one, and a JSON text over several lines
/// where that is asked for.
pub open spec fn printed_line(line: Seq<char>, pretty: bool) -> Option<Seq<char>> {
    let text = trimmed_end(line);
    if text.len() == 0 {
        None
    } else if pretty && json_parsed(text) is Some {
        Some(json_pretty(json_parsed(text)->0))
    } else {
        Some(text)
    }
}

/// What the viewer prints for a line.
pub fn emit_line(line: &str, pretty: bool) -> (r: Option<String>)
    ensures
        option_view(r) == printed_line(line@, pretty),
{
    let text = trim_end(line);
    if text.is_empty() {
        return None;
    }
    if pretty {
        if let Ok(value) = Json::parse(text) {
            return Some(value.to_pretty());
        }
    }
    Some(text.to_string())
}

/// How long the viewer waits before it connects again, in milliseconds.
pub fn retry_delay(retry_ms: u64) -> (r: u64)
    ensures
        r == if retry_ms < 10 {
            10
        } else {
            retry_ms
        },
{
    if retry_ms < 10 {
        10
    } else {
        retry_ms
    }
}

/// What comes from the socket.
#[derive(Debug)]
pub enum LineRead {
    Line(String),
    /// The other side is gone.
    End,
    /// Reading failed, for this reason.
    Failed(String),
}

/// What the viewer does next.
#[derive(Debug)]
pub enum TailStep {
    /// Print this, where there is anything, and read the next line.
    Read(Option<String>),
    /// Say this, wait, and connect again.
    Reconnect(String),
    Finish,
    Fail(Error),
}

/// What the viewer does after it tried to connect. `problem` says why it could not.
pub fn connect_to_socket(path: &str, problem: Option<&str>, wait: bool) -> (r: TailStep)
    ensures
        match problem {
            None => r == TailStep::Read(None),
            Some(problem) => if wait {
                r is Reconnect && r->Reconnect_0@ == "waiting for ui socket "@ + path@ + " ("@
                    + problem@ + ")..."@
            } else {
                r is Fail && r->Fail_0.message@ == "failed connecting ui socket "@ + path@ + ": "@
                    + problem@ && r->Fail_0.cause is None
            },
        },
{
    match problem {
        None => TailStep::Read(None),
        Some(problem) => {
            if wait {
                let mut notice = "waiting for ui socket ".to_string();
                notice.append(path);
                notice.append(" (");
                notice.append(problem);
                notice.append(")...");
                TailStep::Reconnect(notice)
            } else {
                let mut message = "failed connecting ui socket ".to_string();
                message.append(path);
                message.append(": ");
                message.append(problem);
                TailStep::Fail(Error { message, cause: None })
            }
        },
    }
}

/// What the viewer does with what came from the socket at `path`.
pub fn take_line(path: &str, read: LineRead, wait: bool, pretty: bool) -> (r: TailStep)
    ensures
        match read {
            LineRead::Line(line) => r is Read && option_view(r->Read_0) == printed_line(
                line@,
                pretty,
            ),
            LineRead::End => if wait {
                r is Reconnect && r->Reconnect_0@ == "ui socket disconnected; reconnecting..."@
            } else {
                r is Finish
            },
            LineRead::Failed(problem) => {
                &&& r is Fail
                &&& r->Fail_0.message@ == "failed reading from "@ + path@
                &&& option_view(r->Fail_0.cause) == Some(problem@)
            },
        },
{
    match read {
        LineRead::Line(line) => TailStep::Read(emit_line(line.as_str(), pretty)),
        LineRead::End => {
            if wait {
                TailStep::Reconnect("ui socket disconnected; reconnecting...".to_string())
            } else {
                TailStep::Finish
            }
        },
        LineRead::Failed(problem) => {
            let mut message = "failed reading from ".to_string();
            message.append(path);
            TailStep::Fail(Error { message, cause: Some(problem) })
        },
    }
}

// ---------------------------------------------------------------------------------------------
// Laws of the viewer
// ---------------------------------------------------------------------------------------------

/// A line is printed whole but for the white space at its end, unless it is to be laid out; a line
/// of white space alone is not printed.
pub proof fn line_is_printed_whole(line: &str, pretty: bool, r: Option<String>)
    requires
        call_ensures(emit_line, (line, pretty), r),
        !pretty || json_parsed(trimmed_end(line@)) is None,
    ensures
        r is Some ==> {
            let shown = r->0@;
            &&& 0 < shown.len() <= line@.len()
            &&& line@.take(shown.len() as int) == shown
            &&& !is_white_char(shown.last())
            &&& forall|i: int|
                shown.len() <= i < line@.len() ==> is_white_char(#[trigger] line@[i])
        },
        r is None ==> forall|i: int| 0 <= i < line@.len() ==> is_white_char(#[trigger] line@[i]),
{
    trimmed_end_is_tight(line@);
    let shown = trimmed_end(line@);
    if r is Some {
        assert(line@.take(shown.len() as int) =~= shown);
    }
}

/// A line that holds JSON is laid out where that is asked for: what is printed is that JSON.
pub proof fn json_is_laid_out(line: &str, r: Option<String>, text: Seq<char>, white: Seq<char>)
    requires
        call_ensures(emit_line, (line, true), r),
        line@ == text + white,
        text.len() > 0 && !is_white_char(text.last()),
        forall|i: int| 0 <= i < white.len() ==> is_white_char(#[trigger] white[i]),
        json_parsed(text) is Some,
    ensures
        r is Some,
        r->0@ == json_pretty(json_parsed(text)->0),
{
    trimmed_end_is_tight(line@);
    let shown = trimmed_end(line@);
    assert(line@[text.len() - 1] == text.last());
    if shown.len() < text.len() {
        assert(is_white_char(line@[text.len() - 1]));
    }
    if shown.len() > text.len() {
        assert(shown.last() == line@[shown.len() - 1]);
        assert(line@[shown.len() - 1] == white[shown.len() - 1 - text.len()]);
    }
    assert(shown =~= text);
}

/// The viewer prints each line that comes, and ends with the other side unless it is to wait; a
/// failure is told.
pub proof fn lines_are_taken(
    path: &str,
    read: LineRead,
    wait: bool,
    pretty: bool,
    r: TailStep,
    line: &str,
    printed: Option<String>,
)
    requires
        call_ensures(take_line, (path, read, wait, pretty), r),
        call_ensures(emit_line, (line, pretty), printed),
    ensures
        read matches LineRead::Line(text) ==> (text@ == line@ ==> {
            &&& r is Read
            &&& r->Read_0 is Some <==> printed is Some
            &&& printed is Some ==> r->Read_0->0@ == printed->0@
        }),
        read is End && wait ==> r is Reconnect,
        read is End && !wait ==> r is Finish,
        read is Failed ==> r is Fail,
{
}

/// The viewer waits as long as it is asked to before it connects again, but ten milliseconds at
/// least; where it cannot connect it does so only if it is to wait.
pub proof fn viewer_waits_as_asked(
    retry_ms: u64,
    delay: u64,
    path: &str,
    problem: Option<&str>,
    wait: bool,
    r: TailStep,
)
    requires
        call_ensures(retry_delay, (retry_ms,), delay),
        call_ensures(connect_to_socket, (path, problem, wait), r),
    ensures
        retry_ms >= 10 ==> delay == retry_ms,
        retry_ms < 10 ==> delay == 10,
        problem is None ==> r is Read && r->Read_0 is None,
        problem is Some && wait ==> r is Reconnect,
        problem is Some && !wait ==> r is Fail && r->Fail_0.message@
            == "failed connecting ui socket "@ + path@ + ": "@ + problem->0@,
{
}

} // verus!
