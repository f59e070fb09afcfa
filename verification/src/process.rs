//! Processes and directories of the running program: where its files lie, and whether a process is
//! still there.
use vstd::prelude::*;

use crate::error::{fails_with, Error};
use crate::text::{
    contains, contains_char, decimal, given, given_text, holds_text, ink_is_unique, is_ink_of,
    is_white_char, join, join_path, joined, joined_path, number_is_parsed, parse_unsigned,
    parsed_unsigned, split_white, trim, trimmed, views, without_white, words, words_of_parts,
};

verus! {

/// The directory for sockets and other files of the running program: where the program's own
/// variable says, else under the runtime directory of the session, else under the home directory.
pub open spec fn runtime_directory(
    custom: Option<&str>,
    xdg: Option<&str>,
    home: Option<&str>,
) -> Option<Seq<char>> {
    match given(custom) {
        Some(dir) => Some(dir),
        None => match given(xdg) {
            Some(dir) => Some(joined_path(dir, "omni"@)),
            None => match home {
                Some(home) => Some(
                    joined_path(joined_path(joined_path(home@, ".local"@), "state"@), "omni"@),
                ),
                None => None,
            },
        },
    }
}

/// The directory for sockets and other files of the running program, given the values of
/// `OMNI_RUNTIME_DIR` and `XDG_RUNTIME_DIR` and the home directory.
pub fn resolve_runtime_dir(custom: Option<&str>, xdg: Option<&str>, home: Option<&str>) -> (r:
    Result<String, Error>)
    ensures
        match runtime_directory(custom, xdg, home) {
            Some(dir) => r is Ok && r->Ok_0@ == dir,
            None => fails_with(r, "failed to resolve home directory"@),
        },
{
    if let Some(dir) = given_text(custom) {
        return Ok(dir.to_string());
    }
    if let Some(dir) = given_text(xdg) {
        return Ok(join_path(dir, "omni"));
    }
    match home {
        Some(home) => Ok(
            join_path(join_path(join_path(home, ".local").as_str(), "state").as_str(), "omni"),
        ),
        None => Err(Error::new("failed to resolve home directory")),
    }
}

/// Where the user interface leaves the number of its process.
pub fn ui_client_pid_path(runtime_dir: &str) -> (r: String)
    ensures
        r@ == joined_path(runtime_dir@, "transcribe-ui.pid"@),
{
    join_path(runtime_dir, "transcribe-ui.pid")
}

/// The number of a process that a file with this text holds, where it holds one.
pub fn parse_pid(raw: &str) -> (r: Option<u32>)
    ensures
        match r {
            Some(pid) => parsed_unsigned(trimmed(raw@), u32::MAX as int) == Some(pid as int),
            None => parsed_unsigned(trimmed(raw@), u32::MAX as int) is None,
        },
{
    match parse_unsigned(trim(raw), u32::MAX as u64) {
        Ok(pid) => Some(pid as u32),
        Err(_) => None,
    }
}

/// What a row of the process table says: the state, and the command.
#[derive(Debug)]
pub struct ProcessSnapshot {
    pub state: String,
    pub command: String,
}

/// The first word of a row is the state, and the others are the command.
pub fn parse_process_row(row: &str) -> (r: Option<ProcessSnapshot>)
    ensures
        match r {
            Some(p) => words(row@).len() > 0 && p.state@ == words(row@)[0] && p.command@ == joined(
                words(row@).skip(1),
                " "@,
            ),
            None => words(row@).len() == 0,
        },
{
    let mut parts = split_white(row);
    let ghost all = views(parts@);
    if parts.len() == 0 {
        return None;
    }
    let state = parts.remove(0);
    assert(views(parts@) =~= all.skip(1));
    Some(ProcessSnapshot { state, command: join(&parts, " ") })
}

/// Whether a process is the user interface: it is no zombie, and its command is that of the
/// interface or of the program that replaces it.
pub open spec fn is_ui_client(p: ProcessSnapshot, replacement: Option<&str>) -> bool {
    !p.state@.contains('Z') && (holds_text(p.command@, "omni-transcribe-ui"@) || match replacement {
        Some(name) => name@.len() > 0 && holds_text(p.command@, name@),
        None => false,
    })
}

/// Whether the process is the user interface. `replacement` is the file name of the program that
/// is configured in its place, where one is.
pub fn is_ui_client_process(snapshot: &Option<ProcessSnapshot>, replacement: Option<&str>) -> (r:
    bool)
    ensures
        r == match snapshot {
            Some(p) => is_ui_client(*p, replacement),
            None => false,
        },
{
    match snapshot {
        Some(p) => {
            if contains_char(p.state.as_str(), 'Z') {
                return false;
            }
            if contains(p.command.as_str(), "omni-transcribe-ui") {
                return true;
            }
            match replacement {
                Some(name) => !name.is_empty() && contains(p.command.as_str(), name),
                None => false,
            }
        },
        None => false,
    }
}

/// Whether a process is alive: it is there and no zombie. Where the process table says nothing of
/// it, `signalled` says whether it took a signal.
pub fn is_alive(snapshot: &Option<ProcessSnapshot>, signalled: bool) -> (r: bool)
    ensures
        r == match snapshot {
            Some(p) => !p.state@.contains('Z'),
            None => signalled,
        },
{
    match snapshot {
        Some(p) => !contains_char(p.state.as_str(), 'Z'),
        None => signalled,
    }
}

// ---------------------------------------------------------------------------------------------
// Laws of directories and processes
// ---------------------------------------------------------------------------------------------

/// The directory is the one of the program's own variable where it has ink, else it lies under the
/// runtime directory of the session, else under the home directory.
pub proof fn directory_is_as_given(
    custom: Option<&str>,
    xdg: Option<&str>,
    home: Option<&str>,
    r: Result<String, Error>,
    ink: Seq<char>,
)
    requires
        call_ensures(resolve_runtime_dir, (custom, xdg, home), r),
        ink.len() > 0,
        ink.last() != '/',
    ensures
        custom is Some && is_ink_of(ink, custom->0@) ==> r is Ok && r->Ok_0@ == ink,
        custom is None && xdg is Some && is_ink_of(ink, xdg->0@) ==> r is Ok && r->Ok_0@ == ink
            + "/"@ + "omni"@,
        custom is None && xdg is None && home is Some && home->0@ == ink ==> r is Ok && r->Ok_0@
            == ink + "/"@ + ".local"@ + "/"@ + "state"@ + "/"@ + "omni"@,
        custom is None && xdg is None && home is None ==> r is Err,
{
    reveal_strlit(".local");
    reveal_strlit("state");
    assert(".local"@.last() == 'l' && "state"@.last() == 'e');
    if custom is Some && is_ink_of(ink, custom->0@) {
        ink_is_unique(ink, custom->0@);
    }
    if xdg is Some && is_ink_of(ink, xdg->0@) {
        ink_is_unique(ink, xdg->0@);
    }
    let local = ink + "/"@ + ".local"@;
    assert(local.last() == 'l');
    let state = local + "/"@ + "state"@;
    assert(state.last() == 'e');
}

/// The number of a process is read from a file that holds it, with or without white space around
/// it.
pub proof fn process_is_read_back(raw: &str, pid: u32, r: Option<u32>)
    requires
        call_ensures(parse_pid, (raw,), r),
        is_ink_of(decimal(pid as nat), raw@),
    ensures
        r == Some(pid),
{
    ink_is_unique(decimal(pid as nat), raw@);
    number_is_parsed(pid as nat, u32::MAX as int);
}

/// A process is alive unless it is a zombie; where nothing is known of it, the signal decides.
pub proof fn zombies_are_not_alive(snapshot: &Option<ProcessSnapshot>, signalled: bool, r: bool)
    requires
        call_ensures(is_alive, (snapshot, signalled), r),
    ensures
        *snapshot is None ==> r == signalled,
        *snapshot is Some ==> (r <==> !(*snapshot)->0.state@.contains('Z')),
{
}

/// A process counts as the user interface only where its command says so and it is no zombie.
pub proof fn only_the_interface_counts(
    snapshot: &Option<ProcessSnapshot>,
    replacement: Option<&str>,
    r: bool,
)
    requires
        call_ensures(is_ui_client_process, (snapshot, replacement), r),
    ensures
        *snapshot is None ==> !r,
        *snapshot is Some && (*snapshot)->0.state@.contains('Z') ==> !r,
        *snapshot is Some && !(*snapshot)->0.state@.contains('Z') && holds_text(
            (*snapshot)->0.command@,
            "omni-transcribe-ui"@,
        ) ==> r,
        *snapshot is Some && !(*snapshot)->0.state@.contains('Z') && replacement is Some
            && replacement->0@.len() > 0 && holds_text((*snapshot)->0.command@, replacement->0@)
            ==> r,
        r && replacement is None ==> holds_text((*snapshot)->0.command@, "omni-transcribe-ui"@),
{
}

/// A row of two words is a process in the state of the first, with the second as its command.
pub proof fn row_is_a_process(
    row: &str,
    state: Seq<char>,
    command: Seq<char>,
    r: Option<ProcessSnapshot>,
)
    requires
        call_ensures(parse_process_row, (row,), r),
        row@ == state.push(' ') + command,
        state.len() > 0 && without_white(state),
        command.len() > 0 && without_white(command),
    ensures
        r is Some,
        r->0.state@ == state,
        r->0.command@ == command,
{
    assert(is_white_char(' '));
    words_of_parts(state, ' ', command);
    words_of_parts(Seq::empty(), ' ', state);
    assert(words(row@) =~= seq![state, command]);
    assert(words(row@).skip(1) =~= seq![command]);
}

} // verus!
