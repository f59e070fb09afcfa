//! The command line: its commands, and the grammar that reads them from words.
use vstd::prelude::*;

use crate::text::{chars_of, same, starts_with, begins_with, views};

verus! {

/// What a command line asks for.
#[derive(Debug)]
pub struct Cli {
    /// Emit machine-readable output where supported.
    pub json: bool,
    /// Emit simple profiling timing where supported.
    pub profile: bool,
    pub command: Command,
}

/// A command.
#[allow(inconsistent_fields)]
#[derive(Debug)]
pub enum Command {
    /// Start the daemon.
    Start,
    /// Stop the daemon.
    Stop,
    /// Show daemon status.
    Status,
    /// Run health and environment checks.
    Doctor,
    /// Reload runtime configuration.
    Reload,
    /// Manage input devices.
    Input { command: InputCommand },
    /// Manage transcription lifecycle.
    Transcribe { command: TranscribeCommand },
    /// Manage configuration.
    Config { command: ConfigCommand },
    /// The entry point of the daemon itself.
    Daemon,
}

/// A command on input devices.
#[derive(Debug)]
pub enum InputCommand {
    /// Show the configured input device.
    Show,
    /// List the input devices and their IDs.
    List,
    /// Set the input device by its ID, or by its exact name.
    SetDevice { id: Option<String>, name: Option<String> },
}

/// A command on transcription.
#[derive(Debug)]
pub enum TranscribeCommand {
    /// Begin realtime transcription capture.
    Start { background: bool, debug: bool, debug_json: bool },
    /// Show active transcription state.
    Status,
    /// Stop transcription capture; the mode selects the hooks.
    Stop { mode: Option<String> },
}

/// A command on the configuration.
#[derive(Debug)]
pub enum ConfigCommand {
    /// Print the path of the configuration file.
    Path,
    /// Show the merged configuration: the values of the file over the defaults.
    Show,
    /// Get one value by its dotted key.
    Get { key: String },
    /// Set one value by its dotted key.
    SetValue { key: String, value: String, json_value: bool },
    /// Remove one value by its dotted key.
    Unset { key: String },
}

/// Why a command line leads to no command.
#[derive(Debug, Clone, Copy, PartialEq, Eq, Structural)]
pub enum CliStop {
    /// The usage is asked for.
    Help,
    /// The version is asked for.
    Version,
    /// No command is named where one is needed.
    MissingCommand,
    /// A word names no command.
    UnknownCommand,
    /// A word is no flag, or an argument too many.
    UnexpectedArgument,
    /// A flag is given a value.
    UnexpectedValue,
    /// A flag is given twice.
    Repeated,
    /// An option has no value.
    MissingValue,
    /// A needed argument is missing.
    MissingArgument,
    /// Two arguments exclude each other.
    Conflict,
}

/// A command that has no commands under it.
#[derive(Debug, Clone, Copy, PartialEq, Eq, Structural)]
pub enum Leaf {
    Start,
    Stop,
    Status,
    Doctor,
    Reload,
    Daemon,
    InputShow,
    InputList,
    InputSet,
    TranscribeStart,
    TranscribeStatus,
    TranscribeStop,
    ConfigPath,
    ConfigShow,
    ConfigGet,
    ConfigSet,
    ConfigUnset,
}

/// Where in the tree of commands the words have led.
#[derive(Debug, Clone, Copy, PartialEq, Eq, Structural)]
pub enum Level {
    Root,
    Input,
    Transcribe,
    Config,
    Leaf(Leaf),
}

/// A flag without a value.
#[derive(Debug, Clone, Copy, PartialEq, Eq, Structural)]
pub enum Flag {
    Json,
    Profile,
    Background,
    Debug,
    DebugJson,
    JsonValue,
}

/// The characters of an optional text.
pub open spec fn option_view(s: Option<String>) -> Option<Seq<char>> {
    match s {
        Some(s) => Some(s@),
        None => None,
    }
}

/// The command that a word names at a level.
pub open spec fn command_named(level: Level, w: Seq<char>) -> Option<Level> {
    match level {
        Level::Root => if w == "start"@ {
            Some(Level::Leaf(Leaf::Start))
        } else if w == "stop"@ {
            Some(Level::Leaf(Leaf::Stop))
        } else if w == "status"@ {
            Some(Level::Leaf(Leaf::Status))
        } else if w == "doctor"@ {
            Some(Level::Leaf(Leaf::Doctor))
        } else if w == "reload"@ {
            Some(Level::Leaf(Leaf::Reload))
        } else if w == "input"@ {
            Some(Level::Input)
        } else if w == "transcribe"@ {
            Some(Level::Transcribe)
        } else if w == "config"@ {
            Some(Level::Config)
        } else if w == "__daemon"@ {
            Some(Level::Leaf(Leaf::Daemon))
        } else {
            None
        },
        Level::Input => if w == "show"@ {
            Some(Level::Leaf(Leaf::InputShow))
        } else if w == "list"@ {
            Some(Level::Leaf(Leaf::InputList))
        } else if w == "set"@ {
            Some(Level::Leaf(Leaf::InputSet))
        } else {
            None
        },
        Level::Transcribe => if w == "start"@ {
            Some(Level::Leaf(Leaf::TranscribeStart))
        } else if w == "status"@ {
            Some(Level::Leaf(Leaf::TranscribeStatus))
        } else if w == "stop"@ {
            Some(Level::Leaf(Leaf::TranscribeStop))
        } else {
            None
        },
        Level::Config => if w == "path"@ {
            Some(Level::Leaf(Leaf::ConfigPath))
        } else if w == "show"@ {
            Some(Level::Leaf(Leaf::ConfigShow))
        } else if w == "get"@ {
            Some(Level::Leaf(Leaf::ConfigGet))
        } else if w == "set"@ {
            Some(Level::Leaf(Leaf::ConfigSet))
        } else if w == "unset"@ {
            Some(Level::Leaf(Leaf::ConfigUnset))
        } else {
            None
        },
        Level::Leaf(_) => None,
    }
}

/// The flag that a word without its dashes names at a level.
pub open spec fn flag_named(level: Level, w: Seq<char>) -> Option<Flag> {
    if w == "json"@ {
        Some(Flag::Json)
    } else if w == "profile"@ {
        Some(Flag::Profile)
    } else if level == Level::Leaf(Leaf::TranscribeStart) && (w == "background"@ || w == "bg"@) {
        Some(Flag::Background)
    } else if level == Level::Leaf(Leaf::TranscribeStart) && w == "debug"@ {
        Some(Flag::Debug)
    } else if level == Level::Leaf(Leaf::TranscribeStart) && w == "debug-json"@ {
        Some(Flag::DebugJson)
    } else if level == Level::Leaf(Leaf::ConfigSet) && w == "json-value"@ {
        Some(Flag::JsonValue)
    } else {
        None
    }
}

/// How many arguments a level takes.
pub open spec fn arguments_taken(level: Level) -> int {
    match level {
        Level::Leaf(Leaf::InputSet) => 1,
        Level::Leaf(Leaf::TranscribeStop) => 1,
        Level::Leaf(Leaf::ConfigGet) => 1,
        Level::Leaf(Leaf::ConfigSet) => 2,
        Level::Leaf(Leaf::ConfigUnset) => 1,
        _ => 0,
    }
}

/// What the words so far have said.
pub struct ScanView {
    pub level: Level,
    pub json: bool,
    pub profile: bool,
    /// The flags given at this level.
    pub flags: Seq<Flag>,
    pub name: Option<Seq<char>>,
    /// `--name` came, and its value comes next.
    pub wants_name: bool,
    pub args: Seq<Seq<char>>,
    /// `--` came, and every word after it is an argument.
    pub literal: bool,
    /// `help` came, and names of commands follow.
    pub helping: bool,
}

/// Before any word.
pub open spec fn nothing_said() -> ScanView {
    ScanView {
        level: Level::Root,
        json: false,
        profile: false,
        flags: Seq::empty(),
        name: None,
        wants_name: false,
        args: Seq::empty(),
        literal: false,
        helping: false,
    }
}

/// Where the equals sign stands in a word; its length where there is none.
pub open spec fn equals_at(w: Seq<char>) -> int
    decreases w.len(),
{
    if w.len() == 0 || w[0] == '=' {
        0
    } else {
        1 + equals_at(w.drop_first())
    }
}

/// After a long flag, given without its dashes as the name before an equals sign and the value
/// behind it.
pub open spec fn after_flag(s: ScanView, name: Seq<char>, value: Option<Seq<char>>) -> Result<
    ScanView,
    CliStop,
> {
    if name == "help"@ || (name == "version"@ && s.level == Level::Root) {
        if value is Some {
            Err(CliStop::UnexpectedValue)
        } else if name == "help"@ {
            Err(CliStop::Help)
        } else {
            Err(CliStop::Version)
        }
    } else if name == "name"@ && s.level == Level::Leaf(Leaf::InputSet) {
        if s.name is Some {
            Err(CliStop::Repeated)
        } else {
            match value {
                Some(v) => Ok(ScanView { name: Some(v), ..s }),
                None => Ok(ScanView { wants_name: true, ..s }),
            }
        }
    } else {
        match flag_named(s.level, name) {
            Some(flag) => if value is Some {
                Err(CliStop::UnexpectedValue)
            } else if s.flags.contains(flag) {
                Err(CliStop::Repeated)
            } else {
                Ok(
                    ScanView {
                        flags: s.flags.push(flag),
                        json: s.json || flag == Flag::Json,
                        profile: s.profile || flag == Flag::Profile,
                        ..s
                    },
                )
            },
            None => Err(CliStop::UnexpectedArgument),
        }
    }
}

/// After an argument.
pub open spec fn after_argument(s: ScanView, w: Seq<char>) -> Result<ScanView, CliStop> {
    if s.args.len() < arguments_taken(s.level) {
        Ok(ScanView { args: s.args.push(w), ..s })
    } else {
        Err(CliStop::UnexpectedArgument)
    }
}

/// After a word that is no flag.
pub open spec fn after_plain(s: ScanView, w: Seq<char>) -> Result<ScanView, CliStop> {
    if s.level is Leaf {
        after_argument(s, w)
    } else {
        match command_named(s.level, w) {
            Some(level) => Ok(ScanView { level, flags: Seq::empty(), ..s }),
            None => if w == "help"@ {
                Ok(ScanView { helping: true, ..s })
            } else {
                Err(CliStop::UnknownCommand)
            },
        }
    }
}

/// Whether a word starts with a dash and is more than that.
pub open spec fn is_dashed(w: Seq<char>) -> bool {
    w.len() > 1 && w[0] == '-'
}

/// What the words have said once `w` has come too, or why they lead nowhere.
pub open spec fn after_word(s: ScanView, w: Seq<char>) -> Result<ScanView, CliStop> {
    if s.helping {
        match command_named(s.level, w) {
            Some(level) => Ok(ScanView { level, ..s }),
            None => if w == "help"@ {
                Ok(s)
            } else {
                Err(CliStop::UnknownCommand)
            },
        }
    } else if s.wants_name {
        if is_dashed(w) {
            Err(CliStop::MissingValue)
        } else {
            Ok(ScanView { name: Some(w), wants_name: false, ..s })
        }
    } else if s.literal {
        after_argument(s, w)
    } else if w == "--"@ {
        Ok(ScanView { literal: true, ..s })
    } else if begins_with(w, "--"@) {
        let long = w.skip(2);
        let at = equals_at(long);
        after_flag(
            s,
            long.take(at),
            if at < long.len() {
                Some(long.skip(at + 1))
            } else {
                None
            },
        )
    } else if is_dashed(w) {
        if w[1] == 'h' {
            Err(CliStop::Help)
        } else if w[1] == 'V' && s.level == Level::Root {
            Err(CliStop::Version)
        } else {
            Err(CliStop::UnexpectedArgument)
        }
    } else {
        after_plain(s, w)
    }
}

/// What a sequence of words says, or why it leads nowhere.
pub open spec fn after_words(words: Seq<Seq<char>>) -> Result<ScanView, CliStop>
    decreases words.len(),
{
    if words.len() == 0 {
        Ok(nothing_said())
    } else {
        match after_words(words.drop_last()) {
            Ok(s) => after_word(s, words.last()),
            Err(e) => Err(e),
        }
    }
}

/// What a command is, apart from how its texts are held.
pub enum CommandView {
    Start,
    Stop,
    Status,
    Doctor,
    Reload,
    Daemon,
    InputShow,
    InputList,
    InputSet { id: Option<Seq<char>>, name: Option<Seq<char>> },
    TranscribeStart { background: bool, debug: bool, debug_json: bool },
    TranscribeStatus,
    TranscribeStop { mode: Option<Seq<char>> },
    ConfigPath,
    ConfigShow,
    ConfigGet { key: Seq<char> },
    ConfigSet { key: Seq<char>, value: Seq<char>, json_value: bool },
    ConfigUnset { key: Seq<char> },
}

impl View for Command {
    type V = CommandView;

    open spec fn view(&self) -> CommandView {
        match self {
            Command::Start => CommandView::Start,
            Command::Stop => CommandView::Stop,
            Command::Status => CommandView::Status,
            Command::Doctor => CommandView::Doctor,
            Command::Reload => CommandView::Reload,
            Command::Daemon => CommandView::Daemon,
            Command::Input { command } => match command {
                InputCommand::Show => CommandView::InputShow,
                InputCommand::List => CommandView::InputList,
                InputCommand::SetDevice { id, name } => CommandView::InputSet {
                    id: option_view(*id),
                    name: option_view(*name),
                },
            },
            Command::Transcribe { command } => match command {
                TranscribeCommand::Start { background, debug, debug_json } => CommandView::TranscribeStart {
                    background: *background,
                    debug: *debug,
                    debug_json: *debug_json,
                },
                TranscribeCommand::Status => CommandView::TranscribeStatus,
                TranscribeCommand::Stop { mode } => CommandView::TranscribeStop {
                    mode: option_view(*mode),
                },
            },
            Command::Config { command } => match command {
                ConfigCommand::Path => CommandView::ConfigPath,
                ConfigCommand::Show => CommandView::ConfigShow,
                ConfigCommand::Get { key } => CommandView::ConfigGet { key: key@ },
                ConfigCommand::SetValue { key, value, json_value } => CommandView::ConfigSet {
                    key: key@,
                    value: value@,
                    json_value: *json_value,
                },
                ConfigCommand::Unset { key } => CommandView::ConfigUnset { key: key@ },
            },
        }
    }
}

/// The argument at position `i`, where it was given.
pub open spec fn argument(s: ScanView, i: int) -> Option<Seq<char>> {
    if i < s.args.len() {
        Some(s.args[i])
    } else {
        None
    }
}

/// The command that all the words together ask for.
pub open spec fn command_said(s: ScanView) -> Result<CommandView, CliStop> {
    if s.helping {
        Err(CliStop::Help)
    } else if s.wants_name {
        Err(CliStop::MissingValue)
    } else {
        match s.level {
            Level::Leaf(leaf) => match leaf {
                Leaf::Start => Ok(CommandView::Start),
                Leaf::Stop => Ok(CommandView::Stop),
                Leaf::Status => Ok(CommandView::Status),
                Leaf::Doctor => Ok(CommandView::Doctor),
                Leaf::Reload => Ok(CommandView::Reload),
                Leaf::Daemon => Ok(CommandView::Daemon),
                Leaf::InputShow => Ok(CommandView::InputShow),
                Leaf::InputList => Ok(CommandView::InputList),
                Leaf::InputSet => if s.name is Some && s.args.len() > 0 {
                    Err(CliStop::Conflict)
                } else if s.name is None && s.args.len() == 0 {
                    Err(CliStop::MissingArgument)
                } else {
                    Ok(CommandView::InputSet { id: argument(s, 0), name: s.name })
                },
                Leaf::TranscribeStart => Ok(
                    CommandView::TranscribeStart {
                        background: s.flags.contains(Flag::Background),
                        debug: s.flags.contains(Flag::Debug),
                        debug_json: s.flags.contains(Flag::DebugJson),
                    },
                ),
                Leaf::TranscribeStatus => Ok(CommandView::TranscribeStatus),
                Leaf::TranscribeStop => Ok(CommandView::TranscribeStop { mode: argument(s, 0) }),
                Leaf::ConfigPath => Ok(CommandView::ConfigPath),
                Leaf::ConfigShow => Ok(CommandView::ConfigShow),
                Leaf::ConfigGet => if s.args.len() == 1 {
                    Ok(CommandView::ConfigGet { key: s.args[0] })
                } else {
                    Err(CliStop::MissingArgument)
                },
                Leaf::ConfigSet => if s.args.len() == 2 {
                    Ok(
                        CommandView::ConfigSet {
                            key: s.args[0],
                            value: s.args[1],
                            json_value: s.flags.contains(Flag::JsonValue),
                        },
                    )
                } else {
                    Err(CliStop::MissingArgument)
                },
                Leaf::ConfigUnset => if s.args.len() == 1 {
                    Ok(CommandView::ConfigUnset { key: s.args[0] })
                } else {
                    Err(CliStop::MissingArgument)
                },
            },
            _ => Err(CliStop::MissingCommand),
        }
    }
}

// ---------------------------------------------------------------------------------------------
// Reading
// ---------------------------------------------------------------------------------------------

struct Scan {
    level: Level,
    json: bool,
    profile: bool,
    flags: Vec<Flag>,
    name: Option<String>,
    wants_name: bool,
    args: Vec<String>,
    literal: bool,
    helping: bool,
}

impl View for Scan {
    type V = ScanView;

    closed spec fn view(&self) -> ScanView {
        ScanView {
            level: self.level,
            json: self.json,
            profile: self.profile,
            flags: self.flags@,
            name: option_view(self.name),
            wants_name: self.wants_name,
            args: views(self.args@),
            literal: self.literal,
            helping: self.helping,
        }
    }
}

fn find_command(level: Level, w: &str) -> (r: Option<Level>)
    ensures
        r == command_named(level, w@),
{
    match level {
        Level::Root => {
            if same(w, "start") {
                Some(Level::Leaf(Leaf::Start))
            } else if same(w, "stop") {
                Some(Level::Leaf(Leaf::Stop))
            } else if same(w, "status") {
                Some(Level::Leaf(Leaf::Status))
            } else if same(w, "doctor") {
                Some(Level::Leaf(Leaf::Doctor))
            } else if same(w, "reload") {
                Some(Level::Leaf(Leaf::Reload))
            } else if same(w, "input") {
                Some(Level::Input)
            } else if same(w, "transcribe") {
                Some(Level::Transcribe)
            } else if same(w, "config") {
                Some(Level::Config)
            } else if same(w, "__daemon") {
                Some(Level::Leaf(Leaf::Daemon))
            } else {
                None
            }
        },
        Level::Input => {
            if same(w, "show") {
                Some(Level::Leaf(Leaf::InputShow))
            } else if same(w, "list") {
                Some(Level::Leaf(Leaf::InputList))
            } else if same(w, "set") {
                Some(Level::Leaf(Leaf::InputSet))
            } else {
                None
            }
        },
        Level::Transcribe => {
            if same(w, "start") {
                Some(Level::Leaf(Leaf::TranscribeStart))
            } else if same(w, "status") {
                Some(Level::Leaf(Leaf::TranscribeStatus))
            } else if same(w, "stop") {
                Some(Level::Leaf(Leaf::TranscribeStop))
            } else {
                None
            }
        },
        Level::Config => {
            if same(w, "path") {
                Some(Level::Leaf(Leaf::ConfigPath))
            } else if same(w, "show") {
                Some(Level::Leaf(Leaf::ConfigShow))
            } else if same(w, "get") {
                Some(Level::Leaf(Leaf::ConfigGet))
            } else if same(w, "set") {
                Some(Level::Leaf(Leaf::ConfigSet))
            } else if same(w, "unset") {
                Some(Level::Leaf(Leaf::ConfigUnset))
            } else {
                None
            }
        },
        Level::Leaf(_) => None,
    }
}

fn find_flag(level: Level, w: &str) -> (r: Option<Flag>)
    ensures
        r == flag_named(level, w@),
{
    let starting = level == Level::Leaf(Leaf::TranscribeStart);
    if same(w, "json") {
        Some(Flag::Json)
    } else if same(w, "profile") {
        Some(Flag::Profile)
    } else if starting && (same(w, "background") || same(w, "bg")) {
        Some(Flag::Background)
    } else if starting && same(w, "debug") {
        Some(Flag::Debug)
    } else if starting && same(w, "debug-json") {
        Some(Flag::DebugJson)
    } else if level == Level::Leaf(Leaf::ConfigSet) && same(w, "json-value") {
        Some(Flag::JsonValue)
    } else {
        None
    }
}

fn has_flag(flags: &Vec<Flag>, flag: Flag) -> (r: bool)
    ensures
        r == flags@.contains(flag),
{
    let mut i: usize = 0;
    while i < flags.len()
        invariant
            i <= flags@.len(),
            forall|n: int| 0 <= n < i ==> flags@[n] != flag,
        decreases flags@.len() - i,
    {
        if flags[i] == flag {
            assert(flags@[i as int] == flag);
            return true;
        }
        i = i + 1;
    }
    false
}

fn scan_flag(s: Scan, name: &str, value: Option<&str>) -> (r: Result<Scan, CliStop>)
    ensures
        match (r, after_flag(
            s@,
            name@,
            match value {
                Some(v) => Some(v@),
                None => None,
            },
        )) {
            (Ok(next), Ok(expected)) => next@ == expected,
            (Err(stop), Err(expected)) => stop == expected,
            _ => false,
        },
{
    let asks_help = same(name, "help");
    if asks_help || (same(name, "version") && s.level == Level::Root) {
        if value.is_some() {
            Err(CliStop::UnexpectedValue)
        } else if asks_help {
            Err(CliStop::Help)
        } else {
            Err(CliStop::Version)
        }
    } else if same(name, "name") && s.level == Level::Leaf(Leaf::InputSet) {
        if s.name.is_some() {
            Err(CliStop::Repeated)
        } else {
            match value {
                Some(v) => {
                    let mut next = s;
                    next.name = Some(v.to_string());
                    Ok(next)
                },
                None => {
                    let mut next = s;
                    next.wants_name = true;
                    Ok(next)
                },
            }
        }
    } else {
        match find_flag(s.level, name) {
            Some(flag) => {
                if value.is_some() {
                    Err(CliStop::UnexpectedValue)
                } else if has_flag(&s.flags, flag) {
                    Err(CliStop::Repeated)
                } else {
                    let mut next = s;
                    next.flags.push(flag);
                    next.json = next.json || flag == Flag::Json;
                    next.profile = next.profile || flag == Flag::Profile;
                    Ok(next)
                }
            },
            None => Err(CliStop::UnexpectedArgument),
        }
    }
}

fn scan_argument(s: Scan, w: &str) -> (r: Result<Scan, CliStop>)
    ensures
        match (r, after_argument(s@, w@)) {
            (Ok(next), Ok(expected)) => next@ == expected,
            (Err(stop), Err(expected)) => stop == expected,
            _ => false,
        },
{
    let taken: usize = match s.level {
        Level::Leaf(Leaf::InputSet) => 1,
        Level::Leaf(Leaf::TranscribeStop) => 1,
        Level::Leaf(Leaf::ConfigGet) => 1,
        Level::Leaf(Leaf::ConfigSet) => 2,
        Level::Leaf(Leaf::ConfigUnset) => 1,
        _ => 0,
    };
    if s.args.len() < taken {
        let mut next = s;
        let ghost before = views(next.args@);
        next.args.push(w.to_string());
        assert(views(next.args@) =~= before.push(w@));
        Ok(next)
    } else {
        Err(CliStop::UnexpectedArgument)
    }
}

fn scan_plain(s: Scan, w: &str) -> (r: Result<Scan, CliStop>)
    ensures
        match (r, after_plain(s@, w@)) {
            (Ok(next), Ok(expected)) => next@ == expected,
            (Err(stop), Err(expected)) => stop == expected,
            _ => false,
        },
{
    match s.level {
        Level::Leaf(_) => scan_argument(s, w),
        level => match find_command(level, w) {
            Some(found) => {
                let mut next = s;
                next.level = found;
                next.flags = Vec::new();
                Ok(next)
            },
            None => {
                if same(w, "help") {
                    let mut next = s;
                    next.helping = true;
                    Ok(next)
                } else {
                    Err(CliStop::UnknownCommand)
                }
            },
        },
    }
}

fn find_equals(w: &Vec<char>) -> (r: usize)
    ensures
        r == equals_at(w@),
        r <= w@.len(),
{
    let mut i: usize = 0;
    assert(w@.skip(0) =~= w@);
    while i < w.len() && w[i] != '='
        invariant
            i <= w@.len(),
            equals_at(w@) == i + equals_at(w@.skip(i as int)),
        decreases w@.len() - i,
    {
        assert(w@.skip(i as int)[0] == w@[i as int]);
        assert(w@.skip(i as int).drop_first() =~= w@.skip(i + 1));
        i = i + 1;
    }
    proof {
        if i < w@.len() {
            assert(w@.skip(i as int)[0] == w@[i as int]);
        }
    }
    i
}

fn scan_word(s: Scan, w: &str) -> (r: Result<Scan, CliStop>)
    ensures
        match (r, after_word(s@, w@)) {
            (Ok(next), Ok(expected)) => next@ == expected,
            (Err(stop), Err(expected)) => stop == expected,
            _ => false,
        },
{
    let chars = chars_of(w);
    let dashed = chars.len() > 1 && chars[0] == '-';
    if s.helping {
        match find_command(s.level, w) {
            Some(level) => {
                let mut next = s;
                next.level = level;
                Ok(next)
            },
            None => {
                if same(w, "help") {
                    Ok(s)
                } else {
                    Err(CliStop::UnknownCommand)
                }
            },
        }
    } else if s.wants_name {
        if dashed {
            Err(CliStop::MissingValue)
        } else {
            let mut next = s;
            next.name = Some(w.to_string());
            next.wants_name = false;
            Ok(next)
        }
    } else if s.literal {
        scan_argument(s, w)
    } else if same(w, "--") {
        let mut next = s;
        next.literal = true;
        Ok(next)
    } else if starts_with(w, "--") {
        proof {
            reveal_strlit("--");
        }
        let long = w.substring_char(2, chars.len());
        assert(long@ =~= w@.skip(2));
        let letters = chars_of(long);
        let at: usize = find_equals(&letters);
        let name = long.substring_char(0, at);
        assert(name@ =~= long@.take(at as int));
        if at < letters.len() {
            let value = long.substring_char(at + 1, letters.len());
            assert(value@ =~= long@.skip(at + 1));
            scan_flag(s, name, Some(value))
        } else {
            scan_flag(s, name, None)
        }
    } else if dashed {
        if chars[1] == 'h' {
            Err(CliStop::Help)
        } else if chars[1] == 'V' && s.level == Level::Root {
            Err(CliStop::Version)
        } else {
            Err(CliStop::UnexpectedArgument)
        }
    } else {
        scan_plain(s, w)
    }
}

fn first_argument(args: Vec<String>) -> (r: Option<String>)
    ensures
        option_view(r) == if args@.len() > 0 {
            Some(args@[0]@)
        } else {
            None
        },
{
    if args.len() > 0 {
        Some(args[0].clone())
    } else {
        None
    }
}

fn command_of(s: Scan) -> (r: Result<Command, CliStop>)
    ensures
        match (r, command_said(s@)) {
            (Ok(command), Ok(expected)) => command@ == expected,
            (Err(stop), Err(expected)) => stop == expected,
            _ => false,
        },
{
    if s.helping {
        return Err(CliStop::Help);
    }
    if s.wants_name {
        return Err(CliStop::MissingValue);
    }
    assert(forall|i: int| 0 <= i < s.args@.len() ==> #[trigger] s@.args[i] == s.args@[i]@);
    match s.level {
        Level::Leaf(leaf) => match leaf {
            Leaf::Start => Ok(Command::Start),
            Leaf::Stop => Ok(Command::Stop),
            Leaf::Status => Ok(Command::Status),
            Leaf::Doctor => Ok(Command::Doctor),
            Leaf::Reload => Ok(Command::Reload),
            Leaf::Daemon => Ok(Command::Daemon),
            Leaf::InputShow => Ok(Command::Input { command: InputCommand::Show }),
            Leaf::InputList => Ok(Command::Input { command: InputCommand::List }),
            Leaf::InputSet => {
                if s.name.is_some() && s.args.len() > 0 {
                    Err(CliStop::Conflict)
                } else if s.name.is_none() && s.args.len() == 0 {
                    Err(CliStop::MissingArgument)
                } else {
                    let name = s.name;
                    Ok(
                        Command::Input {
                            command: InputCommand::SetDevice { id: first_argument(s.args), name },
                        },
                    )
                }
            },
            Leaf::TranscribeStart => Ok(
                Command::Transcribe {
                    command: TranscribeCommand::Start {
                        background: has_flag(&s.flags, Flag::Background),
                        debug: has_flag(&s.flags, Flag::Debug),
                        debug_json: has_flag(&s.flags, Flag::DebugJson),
                    },
                },
            ),
            Leaf::TranscribeStatus => Ok(Command::Transcribe { command: TranscribeCommand::Status }),
            Leaf::TranscribeStop => Ok(
                Command::Transcribe {
                    command: TranscribeCommand::Stop { mode: first_argument(s.args) },
                },
            ),
            Leaf::ConfigPath => Ok(Command::Config { command: ConfigCommand::Path }),
            Leaf::ConfigShow => Ok(Command::Config { command: ConfigCommand::Show }),
            Leaf::ConfigGet => {
                if s.args.len() == 1 {
                    Ok(
                        Command::Config {
                            command: ConfigCommand::Get { key: s.args[0].clone() },
                        },
                    )
                } else {
                    Err(CliStop::MissingArgument)
                }
            },
            Leaf::ConfigSet => {
                if s.args.len() == 2 {
                    let json_value = has_flag(&s.flags, Flag::JsonValue);
                    Ok(
                        Command::Config {
                            command: ConfigCommand::SetValue {
                                key: s.args[0].clone(),
                                value: s.args[1].clone(),
                                json_value,
                            },
                        },
                    )
                } else {
                    Err(CliStop::MissingArgument)
                }
            },
            Leaf::ConfigUnset => {
                if s.args.len() == 1 {
                    Ok(
                        Command::Config {
                            command: ConfigCommand::Unset { key: s.args[0].clone() },
                        },
                    )
                } else {
                    Err(CliStop::MissingArgument)
                }
            },
        },
        _ => Err(CliStop::MissingCommand),
    }
}

/// What a sequence of words asks for, the name of the program not counted.
pub open spec fn request_of(words: Seq<Seq<char>>) -> Result<(bool, bool, CommandView), CliStop> {
    match after_words(words) {
        Ok(s) => match command_said(s) {
            Ok(command) => Ok((s.json, s.profile, command)),
            Err(stop) => Err(stop),
        },
        Err(stop) => Err(stop),
    }
}

impl Cli {
    /// Reads a command line, of which the first word is the name of the program.
    pub fn parse_from(words: &Vec<String>) -> (r: Result<Cli, CliStop>)
        ensures
            match (r, request_of(
                if words@.len() > 0 {
                    views(words@).skip(1)
                } else {
                    Seq::empty()
                },
            )) {
                (Ok(cli), Ok(expected)) => (cli.json, cli.profile, cli.command@) == expected,
                (Err(stop), Err(expected)) => stop == expected,
                _ => false,
            },
    {
        let mut scan = Scan {
            level: Level::Root,
            json: false,
            profile: false,
            flags: Vec::new(),
            name: None,
            wants_name: false,
            args: Vec::new(),
            literal: false,
            helping: false,
        };
        let ghost said: Seq<Seq<char>> = if words@.len() > 0 {
            views(words@).skip(1)
        } else {
            Seq::empty()
        };
        proof {
            assert(views(scan.args@) =~= Seq::empty());
            assert(scan@ == nothing_said());
            assert(said.take(0) =~= Seq::empty());
        }
        let mut i: usize = 1;
        while i < words.len()
            invariant
                said == if words@.len() > 0 {
                    views(words@).skip(1)
                } else {
                    Seq::empty()
                },
                1 <= i,
                i <= words@.len() || i == 1,
                after_words(said.take(i - 1)) == Ok::<ScanView, CliStop>(scan@),
            decreases words@.len() - i,
        {
            assert(said.take(i as int).drop_last() =~= said.take(i - 1));
            assert(said.take(i as int).last() == words@[i as int]@);
            match scan_word(scan, words[i].as_str()) {
                Ok(next) => {
                    scan = next;
                },
                Err(stop) => {
                    proof {
                        words_that_lead_nowhere(said, i as int);
                    }
                    return Err(stop);
                },
            }
            i = i + 1;
        }
        assert(said.take(i - 1) =~= said);
        let json = scan.json;
        let profile = scan.profile;
        match command_of(scan) {
            Ok(command) => Ok(Cli { json, profile, command }),
            Err(stop) => Err(stop),
        }
    }
}

/// Words that lead nowhere lead nowhere whatever follows them.
pub proof fn words_that_lead_nowhere(words: Seq<Seq<char>>, n: int)
    requires
        0 <= n <= words.len(),
        after_words(words.take(n)) is Err,
    ensures
        after_words(words) == after_words(words.take(n)),
    decreases words.len() - n,
{
    if n < words.len() {
        assert(words.take(n + 1).drop_last() =~= words.take(n));
        words_that_lead_nowhere(words, n + 1);
    } else {
        assert(words.take(n) =~= words);
    }
}

// ---------------------------------------------------------------------------------------------
// Laws of the grammar
// ---------------------------------------------------------------------------------------------

/// Whether a word cannot be taken for a flag.
pub open spec fn is_plain(w: Seq<char>) -> bool {
    w.len() == 0 || w[0] != '-'
}

proof fn one_more_word(words: Seq<Seq<char>>, w: Seq<char>)
    ensures
        after_words(words.push(w)) == match after_words(words) {
            Ok(s) => after_word(s, w),
            Err(e) => Err(e),
        },
{
    assert(words.push(w).drop_last() =~= words);
}

proof fn plain_word_follows(s: ScanView, w: Seq<char>)
    requires
        is_plain(w),
        !s.helping,
        !s.wants_name,
        !s.literal,
    ensures
        after_word(s, w) == after_plain(s, w),
{
    reveal_strlit("--");
    if begins_with(w, "--"@) {
        assert(w.subrange(0, 2)[0] == "--"@[0]);
    }
}

/// The state after the names of two commands, with or without the flag for JSON before them.
pub open spec fn said_two(leaf: Leaf, json: bool) -> ScanView {
    ScanView { level: Level::Leaf(leaf), json, ..nothing_said() }
}

proof fn named_leaves()
    ensures
        command_named(Level::Root, "config"@) == Some(Level::Config),
        command_named(Level::Root, "transcribe"@) == Some(Level::Transcribe),
        command_named(Level::Root, "input"@) == Some(Level::Input),
        command_named(Level::Config, "get"@) == Some(Level::Leaf(Leaf::ConfigGet)),
        command_named(Level::Config, "set"@) == Some(Level::Leaf(Leaf::ConfigSet)),
        command_named(Level::Config, "unset"@) == Some(Level::Leaf(Leaf::ConfigUnset)),
        command_named(Level::Transcribe, "start"@) == Some(Level::Leaf(Leaf::TranscribeStart)),
        command_named(Level::Transcribe, "stop"@) == Some(Level::Leaf(Leaf::TranscribeStop)),
        command_named(Level::Input, "set"@) == Some(Level::Leaf(Leaf::InputSet)),
        is_plain("config"@),
        is_plain("transcribe"@),
        is_plain("input"@),
        is_plain("get"@),
        is_plain("set"@),
        is_plain("unset"@),
        is_plain("start"@),
        is_plain("stop"@),
{
    reveal_strlit("start");
    reveal_strlit("stop");
    reveal_strlit("status");
    reveal_strlit("doctor");
    reveal_strlit("reload");
    reveal_strlit("input");
    reveal_strlit("transcribe");
    reveal_strlit("config");
    reveal_strlit("path");
    reveal_strlit("show");
    reveal_strlit("get");
    reveal_strlit("set");
    reveal_strlit("unset");
    reveal_strlit("list");
    assert("start"@.len() == 5 && "stop"@.len() == 4 && "status"@.len() == 6);
    assert("start"@[0] == 's' && "stop"@[0] == 's' && "status"@[0] == 's');
    assert("doctor"@[0] == 'd' && "reload"@[0] == 'r' && "input"@[0] == 'i');
    assert("transcribe"@[0] == 't' && "config"@[0] == 'c' && "path"@[0] == 'p');
    assert("show"@[0] == 's' && "get"@[0] == 'g' && "set"@[0] == 's' && "unset"@[0] == 'u');
    assert("set"@.len() == 3 && "show"@.len() == 4 && "list"@[0] == 'l');
}

proof fn after_two_names(a: Seq<char>, middle: Level, b: Seq<char>, leaf: Leaf)
    requires
        is_plain(a),
        is_plain(b),
        command_named(Level::Root, a) == Some(middle),
        !(middle is Leaf),
        command_named(middle, b) == Some(Level::Leaf(leaf)),
    ensures
        after_words(Seq::empty().push(a).push(b)) == Ok::<ScanView, CliStop>(said_two(leaf, false)),
        after_words(Seq::empty().push("--json"@).push(a).push(b)) == Ok::<ScanView, CliStop>(
            said_two(leaf, true),
        ),
{
    let none = Seq::<Seq<char>>::empty();
    one_more_word(none, a);
    plain_word_follows(nothing_said(), a);
    one_more_word(none.push(a), b);
    let first = ScanView { level: middle, ..nothing_said() };
    assert(first.flags =~= Seq::empty());
    assert(after_words(none.push(a)) == Ok::<ScanView, CliStop>(first));
    plain_word_follows(first, b);
    one_more_word(none, "--json"@);
    json_is_a_flag();
    one_more_word(none.push("--json"@), a);
    let flagged = ScanView { json: true, flags: Seq::empty().push(Flag::Json), ..nothing_said() };
    plain_word_follows(flagged, a);
    let second = ScanView { level: middle, json: true, ..nothing_said() };
    assert(after_words(none.push("--json"@).push(a)) == Ok::<ScanView, CliStop>(second));
    one_more_word(none.push("--json"@).push(a), b);
    plain_word_follows(second, b);
}

proof fn json_is_a_flag()
    ensures
        after_word(nothing_said(), "--json"@) == Ok::<ScanView, CliStop>(
            ScanView { json: true, flags: Seq::empty().push(Flag::Json), ..nothing_said() },
        ),
{
    reveal_strlit("--json");
    reveal_strlit("--");
    reveal_strlit("json");
    reveal_strlit("help");
    reveal_strlit("version");
    reveal_strlit("name");
    let long = "--json"@.skip(2);
    assert("--json"@.subrange(0, 2) =~= "--"@);
    assert(long =~= "json"@);
    assert("--json"@.len() == 6 && "--"@.len() == 2);
    reveal_with_fuel(equals_at, 5);
    assert(long.len() == 4 && long[0] == 'j' && long[1] == 's' && long[2] == 'o' && long[3] == 'n');
    assert(long.drop_first()[0] == 's');
    assert(long.drop_first().drop_first()[0] == 'o');
    assert(long.drop_first().drop_first().drop_first()[0] == 'n');
    assert(long.drop_first().drop_first().drop_first().drop_first().len() == 0);
    assert(equals_at(long) == 4);
    assert(long.take(4) =~= "json"@);
    assert("json"@[0] == 'j' && "help"@[0] == 'h' && "version"@[0] == 'v' && "name"@[0] == 'n');
}

/// The words behind the name of the program.
pub open spec fn asked_words(words: Seq<String>) -> Seq<Seq<char>> {
    views(words).skip(1)
}

/// Whether a command line is that of these words, with or without `--json` before them.
pub open spec fn says(words: Seq<String>, json: bool, asked: Seq<Seq<char>>) -> bool {
    words.len() > 0 && asked_words(words) == if json {
        Seq::empty().push("--json"@) + asked
    } else {
        asked
    }
}

proof fn says_so(words: Seq<String>, json: bool, a: Seq<char>, b: Seq<char>, rest: Seq<Seq<char>>)
    requires
        says(words, json, Seq::empty().push(a).push(b) + rest),
    ensures
        json ==> asked_words(words) == Seq::empty().push("--json"@).push(a).push(b) + rest,
        !json ==> asked_words(words) == Seq::empty().push(a).push(b) + rest,
{
    if json {
        assert(Seq::empty().push("--json"@) + (Seq::empty().push(a).push(b) + rest)
            =~= Seq::empty().push("--json"@).push(a).push(b) + rest);
    }
}

/// `config get` is asked for the key that is given, to the character.
pub proof fn config_get_keeps_the_key(
    words: &Vec<String>,
    json: bool,
    key: Seq<char>,
    r: Result<Cli, CliStop>,
)
    requires
        call_ensures(Cli::parse_from, (words,), r),
        says(words@, json, Seq::empty().push("config"@).push("get"@) + Seq::empty().push(key)),
        is_plain(key),
    ensures
        r is Ok,
        r->Ok_0.json == json,
        r->Ok_0.command matches Command::Config { command } && (
        command matches ConfigCommand::Get { key: k } && k@ == key),
{
    named_leaves();
    says_so(words@, json, "config"@, "get"@, Seq::empty().push(key));
    after_two_names("config"@, Level::Config, "get"@, Leaf::ConfigGet);
    let before = if json {
        Seq::empty().push("--json"@).push("config"@).push("get"@)
    } else {
        Seq::empty().push("config"@).push("get"@)
    };
    assert(asked_words(words@) =~= before.push(key));
    one_more_word(before, key);
    plain_word_follows(said_two(Leaf::ConfigGet, json), key);
    assert(r is Ok);
    assert(r->Ok_0.command@ == CommandView::ConfigGet { key });
}

/// `config set` is asked for the key and the text that are given, to the character.
pub proof fn config_set_keeps_the_value(
    words: &Vec<String>,
    json: bool,
    key: Seq<char>,
    value: Seq<char>,
    r: Result<Cli, CliStop>,
)
    requires
        call_ensures(Cli::parse_from, (words,), r),
        says(
            words@,
            json,
            Seq::empty().push("config"@).push("set"@) + Seq::empty().push(key).push(value),
        ),
        is_plain(key),
        is_plain(value),
    ensures
        r is Ok,
        r->Ok_0.json == json,
        r->Ok_0.command matches Command::Config { command } && (
        command matches ConfigCommand::SetValue { key: k, value: v, json_value } && k@ == key && v@
            == value && !json_value),
{
    named_leaves();
    says_so(words@, json, "config"@, "set"@, Seq::empty().push(key).push(value));
    after_two_names("config"@, Level::Config, "set"@, Leaf::ConfigSet);
    let before = if json {
        Seq::empty().push("--json"@).push("config"@).push("set"@)
    } else {
        Seq::empty().push("config"@).push("set"@)
    };
    assert(asked_words(words@) =~= before.push(key).push(value));
    one_more_word(before, key);
    let start = said_two(Leaf::ConfigSet, json);
    plain_word_follows(start, key);
    let first = ScanView { args: Seq::empty().push(key), ..start };
    assert(after_words(before.push(key)) == Ok::<ScanView, CliStop>(first));
    one_more_word(before.push(key), value);
    plain_word_follows(first, value);
    let second = ScanView { args: Seq::empty().push(key).push(value), ..start };
    assert(after_words(before.push(key).push(value)) == Ok::<ScanView, CliStop>(second));
    assert(!second.flags.contains(Flag::JsonValue));
    assert(r is Ok);
    assert(r->Ok_0.command@ == CommandView::ConfigSet { key, value, json_value: false });
}

/// `config unset` is asked for the key that is given, to the character.
pub proof fn config_unset_keeps_the_key(
    words: &Vec<String>,
    json: bool,
    key: Seq<char>,
    r: Result<Cli, CliStop>,
)
    requires
        call_ensures(Cli::parse_from, (words,), r),
        says(words@, json, Seq::empty().push("config"@).push("unset"@) + Seq::empty().push(key)),
        is_plain(key),
    ensures
        r is Ok,
        r->Ok_0.json == json,
        r->Ok_0.command matches Command::Config { command } && (
        command matches ConfigCommand::Unset { key: k } && k@ == key),
{
    named_leaves();
    says_so(words@, json, "config"@, "unset"@, Seq::empty().push(key));
    after_two_names("config"@, Level::Config, "unset"@, Leaf::ConfigUnset);
    let before = if json {
        Seq::empty().push("--json"@).push("config"@).push("unset"@)
    } else {
        Seq::empty().push("config"@).push("unset"@)
    };
    assert(asked_words(words@) =~= before.push(key));
    one_more_word(before, key);
    plain_word_follows(said_two(Leaf::ConfigUnset, json), key);
    assert(r is Ok);
    assert(r->Ok_0.command@ == CommandView::ConfigUnset { key });
}

/// `transcribe stop` has the mode that is given, to the character, and none where none is given.
pub proof fn stop_keeps_the_mode(
    words: &Vec<String>,
    json: bool,
    mode: Seq<char>,
    given: bool,
    r: Result<Cli, CliStop>,
)
    requires
        call_ensures(Cli::parse_from, (words,), r),
        says(
            words@,
            json,
            Seq::empty().push("transcribe"@).push("stop"@) + if given {
                Seq::empty().push(mode)
            } else {
                Seq::empty()
            },
        ),
        is_plain(mode),
    ensures
        r is Ok,
        r->Ok_0.json == json,
        r->Ok_0.command matches Command::Transcribe { command } && (
        command matches TranscribeCommand::Stop { mode: m } && (given ==> m is Some && m->0@
            == mode) && (!given ==> m is None)),
{
    named_leaves();
    let rest = if given {
        Seq::empty().push(mode)
    } else {
        Seq::empty()
    };
    says_so(words@, json, "transcribe"@, "stop"@, rest);
    after_two_names("transcribe"@, Level::Transcribe, "stop"@, Leaf::TranscribeStop);
    let before = if json {
        Seq::empty().push("--json"@).push("transcribe"@).push("stop"@)
    } else {
        Seq::empty().push("transcribe"@).push("stop"@)
    };
    one_more_word(before, mode);
    plain_word_follows(said_two(Leaf::TranscribeStop, json), mode);
    assert(asked_words(words@) =~= if given {
        before.push(mode)
    } else {
        before
    });
    assert(r is Ok);
    assert(r->Ok_0.command@ == CommandView::TranscribeStop {
        mode: if given {
            Some(mode)
        } else {
            None
        },
    });
}

/// `input set` is asked for the identifier that is given, to the character.
pub proof fn input_set_keeps_the_device(
    words: &Vec<String>,
    json: bool,
    id: Seq<char>,
    r: Result<Cli, CliStop>,
)
    requires
        call_ensures(Cli::parse_from, (words,), r),
        says(words@, json, Seq::empty().push("input"@).push("set"@) + Seq::empty().push(id)),
        is_plain(id),
    ensures
        r is Ok,
        r->Ok_0.json == json,
        r->Ok_0.command matches Command::Input { command } && (
        command matches InputCommand::SetDevice { id: i, name } && name is None && i is Some
            && i->0@ == id),
{
    named_leaves();
    says_so(words@, json, "input"@, "set"@, Seq::empty().push(id));
    after_two_names("input"@, Level::Input, "set"@, Leaf::InputSet);
    let before = if json {
        Seq::empty().push("--json"@).push("input"@).push("set"@)
    } else {
        Seq::empty().push("input"@).push("set"@)
    };
    assert(asked_words(words@) =~= before.push(id));
    one_more_word(before, id);
    plain_word_follows(said_two(Leaf::InputSet, json), id);
    assert(r is Ok);
    assert(r->Ok_0.command@ == CommandView::InputSet { id: Some(id), name: None });
}

/// A word that names no command is refused, whatever follows it.
pub proof fn unknown_commands_are_refused(words: &Vec<String>, r: Result<Cli, CliStop>)
    requires
        call_ensures(Cli::parse_from, (words,), r),
        words@.len() > 1,
        is_plain(words@[1]@),
        words@[1]@ != "start"@,
        words@[1]@ != "stop"@,
        words@[1]@ != "status"@,
        words@[1]@ != "doctor"@,
        words@[1]@ != "reload"@,
        words@[1]@ != "input"@,
        words@[1]@ != "transcribe"@,
        words@[1]@ != "config"@,
        words@[1]@ != "__daemon"@,
        words@[1]@ != "help"@,
    ensures
        r is Err,
        r->Err_0 is UnknownCommand,
{
    let said = views(words@).skip(1);
    let w = words@[1]@;
    assert(said.take(1) =~= Seq::empty().push(w));
    one_more_word(Seq::empty(), w);
    plain_word_follows(nothing_said(), w);
    words_that_lead_nowhere(said, 1);
}

/// The short commands: each word is the command it names, and no other.
pub proof fn short_commands_are_named(words: &Vec<String>, r: Result<Cli, CliStop>)
    requires
        call_ensures(Cli::parse_from, (words,), r),
        words@.len() == 2,
        is_plain(words@[1]@),
    ensures
        words@[1]@ == "start"@ <==> r is Ok && r->Ok_0.command is Start,
        words@[1]@ == "stop"@ <==> r is Ok && r->Ok_0.command is Stop,
        words@[1]@ == "status"@ <==> r is Ok && r->Ok_0.command is Status,
        words@[1]@ == "doctor"@ <==> r is Ok && r->Ok_0.command is Doctor,
        words@[1]@ == "reload"@ <==> r is Ok && r->Ok_0.command is Reload,
        r is Ok ==> !r->Ok_0.json && !r->Ok_0.profile,
{
    reveal_strlit("start");
    reveal_strlit("stop");
    reveal_strlit("status");
    reveal_strlit("doctor");
    reveal_strlit("reload");
    assert("start"@.len() == 5 && "stop"@.len() == 4 && "status"@.len() == 6);
    assert("doctor"@[0] == 'd' && "reload"@[0] == 'r' && "status"@[0] == 's');
    let said = views(words@).skip(1);
    let w = words@[1]@;
    assert(said =~= Seq::empty().push(w));
    one_more_word(Seq::empty(), w);
    plain_word_follows(nothing_said(), w);
}

/// Behind `--` every word is an argument, to the character, also one that looks like a flag.
pub proof fn words_behind_the_dashes_are_kept(
    words: &Vec<String>,
    json: bool,
    key: Seq<char>,
    value: Seq<char>,
    r: Result<Cli, CliStop>,
)
    requires
        call_ensures(Cli::parse_from, (words,), r),
        says(
            words@,
            json,
            Seq::empty().push("config"@).push("set"@) + Seq::empty().push("--"@).push(key).push(
                value,
            ),
        ),
    ensures
        r is Ok,
        r->Ok_0.command matches Command::Config { command } && (
        command matches ConfigCommand::SetValue { key: k, value: v, json_value } && k@ == key && v@
            == value && !json_value),
{
    named_leaves();
    says_so(words@, json, "config"@, "set"@, Seq::empty().push("--"@).push(key).push(value));
    after_two_names("config"@, Level::Config, "set"@, Leaf::ConfigSet);
    let before = if json {
        Seq::empty().push("--json"@).push("config"@).push("set"@)
    } else {
        Seq::empty().push("config"@).push("set"@)
    };
    assert(asked_words(words@) =~= before.push("--"@).push(key).push(value));
    let start = said_two(Leaf::ConfigSet, json);
    one_more_word(before, "--"@);
    let literal = ScanView { literal: true, ..start };
    assert(after_words(before.push("--"@)) == Ok::<ScanView, CliStop>(literal));
    one_more_word(before.push("--"@), key);
    let first = ScanView { args: Seq::empty().push(key), ..literal };
    assert(after_words(before.push("--"@).push(key)) == Ok::<ScanView, CliStop>(first));
    one_more_word(before.push("--"@).push(key), value);
    let second = ScanView { args: Seq::empty().push(key).push(value), ..literal };
    assert(after_words(before.push("--"@).push(key).push(value)) == Ok::<ScanView, CliStop>(
        second,
    ));
    assert(!second.flags.contains(Flag::JsonValue));
    assert(r is Ok);
    assert(r->Ok_0.command@ == CommandView::ConfigSet { key, value, json_value: false });
}

} // verus!
