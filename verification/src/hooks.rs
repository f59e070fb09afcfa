//! Hooks: the actions that the configuration names for an event, and what each of them does.
use vstd::prelude::*;

use crate::cli::option_view;
use crate::clipboard::{
    aside_after, asked, is_clipboard_action, ClipboardRequest, ClipboardSession,
};
use crate::config::{
    apart, apart_after_prefix, at_path, at_path_in_parts, first_name_begins_with,
    get_value_by_key, key_path, key_path_after_dot, key_with_a_name, key_without_dots,
    set_leaves_the_rest, value_array_view, value_at, value_entries, value_items, value_table_view,
    with_path, ConfigValue, Tree,
};
use crate::error::{fails_from, fails_with, Error};
use crate::fields::{lookup, lookups_after_put, put};
use crate::json::{no_fields, tidy, Json, JsonTree};
use crate::text::{
    decimal, decimal_is_read_back, decimal_text, ink_is_unique, is_digit, is_ink_of, is_white_char,
    number_is_parsed, number_problem, parse_unsigned, parsed_unsigned, same, split_white, str_view,
    trimmed, trimmed_end_is_tight, trimmed_start_is_tight, views, without_white, words,
    words_of_parts,
};

verus! {

/// What hooks did for an event.
#[derive(Debug)]
pub struct HookExecutionResult {
    pub event: String,
    pub actions_ran: Vec<String>,
}

// ---------------------------------------------------------------------------------------------
// The hooks in the configuration
// ---------------------------------------------------------------------------------------------

/// Whether every item is a text.
pub open spec fn all_texts(items: Seq<Tree>) -> bool {
    forall|i: int| 0 <= i < items.len() ==> (#[trigger] items[i]) is Text
}

/// What is wrong with the hooks of one event, where anything is.
pub open spec fn event_problem(domain: Seq<char>, event: (Seq<char>, Tree)) -> Option<Seq<char>> {
    let name = "event.hooks."@ + domain + "."@ + event.0;
    match event.1 {
        Tree::Text(_) => None,
        Tree::Array(items) => if all_texts(items) {
            None
        } else {
            Some(name + " must contain only string actions"@)
        },
        _ => Some(name + " must be a string or array of strings"@),
    }
}

/// What is wrong with the first event whose hooks are wrong, where there is one.
pub open spec fn events_problem(domain: Seq<char>, events: Seq<(Seq<char>, Tree)>) -> Option<
    Seq<char>,
>
    decreases events.len(),
{
    if events.len() == 0 {
        None
    } else if event_problem(domain, events[0]) is Some {
        event_problem(domain, events[0])
    } else {
        events_problem(domain, events.drop_first())
    }
}

/// What is wrong with the hooks of one domain, where anything is.
pub open spec fn domain_problem(domain: (Seq<char>, Tree)) -> Option<Seq<char>> {
    match domain.1 {
        Tree::Table(events) => events_problem(domain.0, events),
        _ => Some(
            "event.hooks."@ + domain.0 + " must be a TOML table (use event.hooks."@ + domain.0
                + ".<event>)"@,
        ),
    }
}

/// What is wrong with the first domain whose hooks are wrong, where there is one.
pub open spec fn domains_problem(domains: Seq<(Seq<char>, Tree)>) -> Option<Seq<char>>
    decreases domains.len(),
{
    if domains.len() == 0 {
        None
    } else if domain_problem(domains[0]) is Some {
        domain_problem(domains[0])
    } else {
        domains_problem(domains.drop_first())
    }
}

/// What is wrong with the hooks of a configuration, where anything is.
pub open spec fn hooks_problem(t: Tree) -> Option<Seq<char>> {
    match value_at(t, "event.hooks"@) {
        None => None,
        Some(Tree::Table(domains)) => domains_problem(domains),
        Some(_) => Some("event.hooks must be a TOML table"@),
    }
}

fn are_texts(items: &Vec<ConfigValue>) -> (r: bool)
    ensures
        r == all_texts(value_items(items@)),
{
    let mut i: usize = 0;
    while i < items.len()
        invariant
            i <= items@.len(),
            forall|n: int| 0 <= n < i ==> (#[trigger] value_items(items@)[n]) is Text,
        decreases items@.len() - i,
    {
        let ghost item = value_items(items@)[i as int];
        if items[i].as_str().is_none() {
            assert(!(item is Text));
            return false;
        }
        i = i + 1;
    }
    true
}

fn check_event(domain: &str, event: &str, value: &ConfigValue) -> (r: Option<String>)
    ensures
        option_view(r) == event_problem(domain@, (event@, value@)),
{
    let mut name = "event.hooks.".to_string();
    name.append(domain);
    name.append(".");
    name.append(event);
    match value {
        ConfigValue::String(_) => None,
        ConfigValue::Array(items) => {
            proof {
                value_array_view(*items);
            }
            if are_texts(items) {
                None
            } else {
                name.append(" must contain only string actions");
                Some(name)
            }
        },
        _ => {
            name.append(" must be a string or array of strings");
            Some(name)
        },
    }
}

fn check_events(domain: &str, events: &Vec<(String, ConfigValue)>) -> (r: Option<String>)
    ensures
        option_view(r) == events_problem(domain@, value_entries(events@)),
{
    let ghost all = value_entries(events@);
    let mut i: usize = 0;
    assert(all.skip(0) =~= all);
    while i < events.len()
        invariant
            all == value_entries(events@),
            i <= events@.len(),
            events_problem(domain@, all) == events_problem(domain@, all.skip(i as int)),
        decreases events@.len() - i,
    {
        assert(all.skip(i as int)[0] == all[i as int]);
        assert(all.skip(i as int).drop_first() =~= all.skip(i + 1));
        let problem = check_event(domain, events[i].0.as_str(), &events[i].1);
        if problem.is_some() {
            return problem;
        }
        i = i + 1;
    }
    None
}

fn check_domains(domains: &Vec<(String, ConfigValue)>) -> (r: Option<String>)
    ensures
        option_view(r) == domains_problem(value_entries(domains@)),
{
    let ghost all = value_entries(domains@);
    let mut i: usize = 0;
    assert(all.skip(0) =~= all);
    while i < domains.len()
        invariant
            all == value_entries(domains@),
            i <= domains@.len(),
            domains_problem(all) == domains_problem(all.skip(i as int)),
        decreases domains@.len() - i,
    {
        assert(all.skip(i as int)[0] == all[i as int]);
        assert(all.skip(i as int).drop_first() =~= all.skip(i + 1));
        let domain = domains[i].0.as_str();
        let problem = match &domains[i].1 {
            ConfigValue::Table(events) => {
                proof {
                    value_table_view(*events);
                }
                check_events(domain, events)
            },
            _ => {
                let mut message = "event.hooks.".to_string();
                message.append(domain);
                message.append(" must be a TOML table (use event.hooks.");
                message.append(domain);
                message.append(".<event>)");
                Some(message)
            },
        };
        if problem.is_some() {
            return problem;
        }
        i = i + 1;
    }
    None
}

/// Fails where anything is wrong with the hooks of the configuration.
pub fn validate_hook_config(config: &ConfigValue) -> (r: Result<(), Error>)
    ensures
        match hooks_problem(config@) {
            None => r is Ok,
            Some(message) => fails_with(r, message),
        },
{
    match get_value_by_key(config, "event.hooks") {
        None => Ok(()),
        Some(ConfigValue::Table(domains)) => {
            proof {
                value_table_view(*domains);
            }
            match check_domains(domains) {
                None => Ok(()),
                Some(message) => Err(Error { message, cause: None }),
            }
        },
        Some(_) => Err(Error::new("event.hooks must be a TOML table")),
    }
}

/// The key under which the hooks of an event stand.
pub open spec fn hook_key(domain: Seq<char>, event: Seq<char>) -> Seq<char> {
    "event.hooks."@ + domain + "."@ + event
}

/// The characters of texts.
pub open spec fn texts_in(items: Seq<Tree>) -> Seq<Seq<char>> {
    Seq::new(items.len(), |i: int| items[i]->Text_0)
}

/// The actions for an event; nothing where the configuration holds something else in their place.
pub open spec fn actions_for(t: Tree, domain: Seq<char>, event: Seq<char>) -> Option<Seq<Seq<char>>> {
    match value_at(t, hook_key(domain, event)) {
        None => Some(Seq::empty()),
        Some(Tree::Text(s)) => Some(seq![s]),
        Some(Tree::Array(items)) => if all_texts(items) {
            Some(texts_in(items))
        } else {
            None
        },
        Some(_) => None,
    }
}

/// The actions that the configuration names for an event.
pub fn hook_actions_for_event(config: &ConfigValue, domain: &str, event: &str) -> (r: Result<
    Vec<String>,
    Error,
>)
    ensures
        match actions_for(config@, domain@, event@) {
            Some(actions) => r is Ok && views(r->Ok_0@) == actions,
            None => match value_at(config@, hook_key(domain@, event@)) {
                Some(Tree::Array(_)) => fails_with(
                    r,
                    "hook action for "@ + domain@ + "."@ + event@ + " must be a string"@,
                ),
                _ => fails_with(
                    r,
                    "hook value for "@ + domain@ + "."@ + event@
                        + " must be a string or array of strings"@,
                ),
            },
        },
{
    let mut key = "event.hooks.".to_string();
    key.append(domain);
    key.append(".");
    key.append(event);
    match get_value_by_key(config, key.as_str()) {
        None => {
            let none: Vec<String> = Vec::new();
            assert(views(none@) =~= Seq::empty());
            Ok(none)
        },
        Some(ConfigValue::String(s)) => {
            let one: Vec<String> = vec![s.clone()];
            assert(views(one@) =~= seq![s@]);
            Ok(one)
        },
        Some(ConfigValue::Array(items)) => {
            proof {
                value_array_view(*items);
            }
            let ghost trees = value_items(items@);
            let mut actions: Vec<String> = Vec::new();
            let mut i: usize = 0;
            while i < items.len()
                invariant
                    value_at(config@, hook_key(domain@, event@)) == Some(Tree::Array(trees)),
                    trees == value_items(items@),
                    i <= items@.len(),
                    actions@.len() == i,
                    forall|n: int|
                        0 <= n < i ==> #[trigger] trees[n] == Tree::Text(actions@[n]@),
                decreases items@.len() - i,
            {
                match items[i].as_str() {
                    Some(s) => {
                        actions.push(s.to_string());
                    },
                    None => {
                        assert(!(trees[i as int] is Text));
                        let mut message = "hook action for ".to_string();
                        message.append(domain);
                        message.append(".");
                        message.append(event);
                        message.append(" must be a string");
                        return Err(Error { message, cause: None });
                    },
                }
                i = i + 1;
            }
            assert(views(actions@) =~= texts_in(trees));
            Ok(actions)
        },
        Some(_) => {
            let mut message = "hook value for ".to_string();
            message.append(domain);
            message.append(".");
            message.append(event);
            message.append(" must be a string or array of strings");
            Err(Error { message, cause: None })
        },
    }
}

proof fn right_domain(domains: Seq<(Seq<char>, Tree)>, name: Seq<char>)
    requires
        domains_problem(domains) is None,
        lookup(domains, name) is Some,
    ensures
        domain_problem((name, lookup(domains, name)->0)) is None,
    decreases domains.len(),
{
    if domains[0].0 != name {
        right_domain(domains.drop_first(), name);
    }
}

proof fn right_event(domain: Seq<char>, events: Seq<(Seq<char>, Tree)>, name: Seq<char>)
    requires
        events_problem(domain, events) is None,
        lookup(events, name) is Some,
    ensures
        event_problem(domain, (name, lookup(events, name)->0)) is None,
    decreases events.len(),
{
    if events[0].0 != name {
        right_event(domain, events.drop_first(), name);
    }
}

/// Where the hooks of a configuration were found to be right, the actions of every event of
/// transcription that has a name can be read.
pub proof fn right_hooks_have_actions(t: Tree, event: Seq<char>)
    requires
        hooks_problem(t) is None,
        key_path(event).len() > 0,
    ensures
        actions_for(t, "transcribe"@, event) is Some,
{
    let hooks = key_path("event.hooks"@);
    let domain = "transcribe"@;
    reveal_strlit("event.hooks.");
    reveal_strlit("event.hooks");
    reveal_strlit("transcribe");
    reveal_strlit(".");
    let prefix = "event.hooks."@ + domain;
    assert("event.hooks."@ =~= "event.hooks"@.push('.'));
    assert(prefix + "."@ =~= prefix.push('.'));
    key_with_a_name("event.hooks"@, 0);
    key_path_after_dot("event.hooks"@, domain);
    key_path_after_dot(prefix, event);
    trimmed_start_is_tight(domain);
    trimmed_end_is_tight(domain);
    key_without_dots(domain);
    let rest = key_path(event);
    let path = key_path(hook_key(domain, event));
    assert(trimmed(domain) == domain);
    assert(path =~= hooks + (seq![domain] + rest));
    at_path_in_parts(t, hooks, seq![domain] + rest);
    if let Some(Tree::Table(domains)) = at_path(t, hooks) {
        assert((seq![domain] + rest).drop_first() =~= rest);
        if let Some(child) = lookup(domains, domain) {
            right_domain(domains, domain);
            assert(at_path(t, path) == at_path(child, rest));
            let events = child->Table_0;
            if let Some(v) = lookup(events, rest[0]) {
                right_event(domain, events, rest[0]);
                let deeper = rest.drop_first();
                assert(at_path(t, path) == at_path(v, deeper));
                assert(deeper.len() > 0 ==> at_path(v, deeper) is None);
            }
        }
    }
}

// ---------------------------------------------------------------------------------------------
// The actions
// ---------------------------------------------------------------------------------------------

/// What a `sleep` action asks for.
pub enum SleepView {
    /// The action is another one.
    Other,
    /// No number is given.
    NoNumber,
    /// More than a number is given.
    TooMuch,
    /// What is given is no number.
    NotANumber(Seq<char>),
    /// This many milliseconds.
    Millis(int),
}

/// What an action asks for, taken as a `sleep`.
pub open spec fn sleep_asked(action: Seq<char>) -> SleepView {
    let w = words(action);
    if w.len() == 0 || w[0] != "sleep"@ {
        SleepView::Other
    } else if w.len() == 1 {
        SleepView::NoNumber
    } else if w.len() > 2 {
        SleepView::TooMuch
    } else {
        match parsed_unsigned(w[1], u64::MAX as int) {
            Some(n) => SleepView::Millis(n),
            None => SleepView::NotANumber(w[1]),
        }
    }
}

/// Whether `r` is what reading a `sleep` gives.
pub open spec fn reads_sleep(r: Result<Option<u64>, Error>, asked: SleepView) -> bool {
    match asked {
        SleepView::Other => r == Ok::<Option<u64>, Error>(None),
        SleepView::NoNumber => fails_with(
            r,
            "builtin action 'sleep' requires milliseconds (e.g. \"sleep 120\")"@,
        ),
        SleepView::TooMuch => fails_with(
            r,
            "builtin action 'sleep' accepts exactly one millisecond value"@,
        ),
        SleepView::NotANumber(raw) => fails_from(
            r,
            "invalid millisecond value for 'sleep': "@ + raw,
            number_problem(raw, u64::MAX as int),
        ),
        SleepView::Millis(n) => r is Ok && r->Ok_0 is Some && r->Ok_0->0 == n,
    }
}

/// The milliseconds that a `sleep` action asks for; nothing where the action is another one.
pub fn parse_sleep_action(action: &str) -> (r: Result<Option<u64>, Error>)
    ensures
        reads_sleep(r, sleep_asked(action@)),
{
    let parts = split_white(action);
    assert(forall|i: int| 0 <= i < parts@.len() ==> #[trigger] words(action@)[i] == parts@[i]@);
    if parts.len() == 0 || !same(parts[0].as_str(), "sleep") {
        return Ok(None);
    }
    if parts.len() == 1 {
        return Err(
            Error::new("builtin action 'sleep' requires milliseconds (e.g. \"sleep 120\")"),
        );
    }
    if parts.len() > 2 {
        return Err(Error::new("builtin action 'sleep' accepts exactly one millisecond value"));
    }
    match parse_unsigned(parts[1].as_str(), u64::MAX) {
        Ok(millis) => Ok(Some(millis)),
        Err(problem) => {
            let mut message = "invalid millisecond value for 'sleep': ".to_string();
            message.append(parts[1].as_str());
            Err(Error { message, cause: Some(problem) })
        },
    }
}

/// The words that `shell_words::split` makes of a command, where it makes any.
pub uninterp spec fn shell_words_of(command: Seq<char>) -> Option<Seq<Seq<char>>>;

/// Splits a command into words as a shell does.
///
/// Trusted: `shell_words::split`, whose outcome is a function of the command. The message of its
/// failure is always the same.
#[verifier::external_body]
fn shell_split(command: &str) -> (r: Result<Vec<String>, String>)
    ensures
        match r {
            Ok(parts) => shell_words_of(command@) == Some(views(parts@)),
            Err(problem) => shell_words_of(command@) is None && problem@
                == "missing closing quote"@,
        },
{
    shell_words::split(command).map_err(|error| error.to_string())
}

/// A program to run for a hook, with what goes into its environment.
#[derive(Debug)]
pub struct HookCommand {
    /// The action as it is configured.
    pub action: String,
    /// The program and its arguments.
    pub argv: Vec<String>,
    pub event: String,
    pub mode: String,
    pub transcript: String,
    pub timestamp: String,
}

/// What is to be done next for the hooks of an event.
pub enum HookStep {
    /// Make sure that the user interface runs, and have it shown.
    ShowUi(Json),
    /// Have the user interface hidden.
    HideUi(Json),
    Clipboard(ClipboardRequest),
    /// Wait this many milliseconds.
    Sleep(u64),
    Run(HookCommand),
    Finished,
}

/// What the user interface is told of the event.
pub open spec fn ui_payload(event: Seq<char>, mode: Option<Seq<char>>) -> JsonTree {
    JsonTree::Object(
        put(
            put(no_fields(), "event"@, JsonTree::Text(event)),
            "mode"@,
            match mode {
                Some(mode) => JsonTree::Text(mode),
                None => JsonTree::Null,
            },
        ),
    )
}

/// The mode as the environment holds it.
pub open spec fn mode_or_empty(mode: Option<Seq<char>>) -> Seq<char> {
    match mode {
        Some(mode) => mode,
        None => Seq::empty(),
    }
}

/// Whether `r` is what an action that is no builtin leads to, once its command was split.
pub open spec fn runs_command(
    r: Result<HookStep, Error>,
    action: Seq<char>,
    parts: Option<Seq<Seq<char>>>,
    run: HookRunView,
) -> bool {
    match parts {
        None => fails_from(
            r,
            "failed parsing hook command: "@ + action,
            "missing closing quote"@,
        ),
        Some(parts) => if parts.len() == 0 {
            fails_with(r, "hook command is empty"@)
        } else {
            r is Ok && r->Ok_0 is Run && r->Ok_0->Run_0.action@ == action && views(
                r->Ok_0->Run_0.argv@,
            ) == parts
                && r->Ok_0->Run_0.event@ == run.event && r->Ok_0->Run_0.mode@ == mode_or_empty(
                run.mode,
            ) && r->Ok_0->Run_0.transcript@ == run.transcript && r->Ok_0->Run_0.timestamp@
                == run.timestamp
        },
    }
}

/// Whether `r` is what an action leads to.
pub open spec fn leads_action(
    r: Result<HookStep, Error>,
    action: Seq<char>,
    run: HookRunView,
) -> bool {
    if action == "show_ui"@ {
        r is Ok && r->Ok_0 is ShowUi && r->Ok_0->ShowUi_0@ == ui_payload(run.event, run.mode)
    } else if action == "hide_ui"@ {
        r is Ok && r->Ok_0 is HideUi && r->Ok_0->HideUi_0@ == ui_payload(run.event, run.mode)
    } else if is_clipboard_action(action) {
        r is Ok && r->Ok_0 is Clipboard && r->Ok_0->Clipboard_0@ == asked(
            run.aside,
            action,
            run.transcript,
        )
    } else if action == "restore"@ {
        fails_with(r, "builtin action 'restore' was renamed to 'unstash'"@)
    } else {
        match sleep_asked(action) {
            SleepView::Other => runs_command(r, action, shell_words_of(action), run),
            SleepView::Millis(n) => r is Ok && r->Ok_0 is Sleep && r->Ok_0->Sleep_0 == n,
            SleepView::NoNumber => fails_with(
                r,
                "builtin action 'sleep' requires milliseconds (e.g. \"sleep 120\")"@,
            ),
            SleepView::TooMuch => fails_with(
                r,
                "builtin action 'sleep' accepts exactly one millisecond value"@,
            ),
            SleepView::NotANumber(raw) => fails_from(
                r,
                "invalid millisecond value for 'sleep': "@ + raw,
                number_problem(raw, u64::MAX as int),
            ),
        }
    }
}

/// The hooks of an event on their way: what they are told, and how far they are.
pub struct HookRunView {
    pub event: Seq<char>,
    pub mode: Option<Seq<char>>,
    pub transcript: Seq<char>,
    pub timestamp: Seq<char>,
    pub actions: Seq<Seq<char>>,
    /// How many actions were taken; all of them once one has failed.
    pub done: int,
    /// Whether the last action that was taken is on its way.
    pub running: bool,
    /// How many actions were carried out.
    pub ran: int,
    /// What the clipboard held before, where it was put aside.
    pub aside: Option<Seq<char>>,
}

/// The hooks of an event on their way.
#[derive(Debug)]
pub struct HookRun {
    event: String,
    mode: Option<String>,
    transcript: String,
    timestamp: String,
    actions: Vec<String>,
    done: usize,
    running: bool,
    ran: usize,
    clipboard: ClipboardSession,
}

impl View for HookRun {
    type V = HookRunView;

    closed spec fn view(&self) -> HookRunView {
        HookRunView {
            event: self.event@,
            mode: option_view(self.mode),
            transcript: self.transcript@,
            timestamp: self.timestamp@,
            actions: views(self.actions@),
            done: self.done as int,
            running: self.running,
            ran: self.ran as int,
            aside: self.clipboard.aside(),
        }
    }
}

/// The hooks once their next action is on its way.
pub open spec fn taken(run: HookRunView) -> HookRunView {
    HookRunView { done: run.done + 1, running: true, ..run }
}

/// The hooks once one of their actions has failed: no other is taken.
pub open spec fn stopped(run: HookRunView) -> HookRunView {
    HookRunView { done: run.actions.len() as int, running: false, ..run }
}

/// The hooks once the action on its way came out.
pub open spec fn came_out(run: HookRunView, succeeded: bool) -> HookRunView {
    let after = HookRunView {
        aside: aside_after(run.aside, run.actions[run.done - 1], succeeded),
        ..run
    };
    if succeeded {
        HookRunView { running: false, ran: run.ran + 1, ..after }
    } else {
        stopped(after)
    }
}

/// Whether an action is on its way, and those before it were carried out.
pub open spec fn is_running(run: HookRunView) -> bool {
    run.running && 0 <= run.ran && run.ran + 1 == run.done && run.done <= run.actions.len()
}

/// Whether all actions were carried out.
pub open spec fn all_ran(run: HookRunView) -> bool {
    !run.running && run.ran == run.actions.len()
}

/// The name of the event that the end of a transcription is, by its mode.
pub open spec fn stop_event(mode: Option<Seq<char>>) -> Seq<char> {
    match mode {
        Some(mode) => "stop_"@ + mode,
        None => "stop"@,
    }
}

/// Whether the hooks of `event` in the domain of transcription stand at their start.
pub open spec fn starts_run(
    r: Result<HookRun, Error>,
    config: Tree,
    event: Seq<char>,
    mode: Option<Seq<char>>,
    transcript: Seq<char>,
    timestamp: Seq<char>,
) -> bool {
    match actions_for(config, "transcribe"@, event) {
        Some(actions) => r is Ok && r->Ok_0@ == (HookRunView {
            event: "transcribe"@ + "."@ + event,
            mode,
            transcript,
            timestamp,
            actions,
            done: 0,
            running: false,
            ran: 0,
            aside: None,
        }),
        None => match value_at(config, hook_key("transcribe"@, event)) {
            Some(Tree::Array(_)) => fails_with(
                r,
                "hook action for "@ + "transcribe"@ + "."@ + event + " must be a string"@,
            ),
            _ => fails_with(
                r,
                "hook value for "@ + "transcribe"@ + "."@ + event
                    + " must be a string or array of strings"@,
            ),
        },
    }
}

fn run_event_hooks(
    config: &ConfigValue,
    event_name: &str,
    mode: Option<&str>,
    transcript: &str,
    timestamp: &str,
) -> (r: Result<HookRun, Error>)
    ensures
        starts_run(r, config@, event_name@, str_view(mode), transcript@, timestamp@),
{
    match hook_actions_for_event(config, "transcribe", event_name) {
        Err(e) => Err(e),
        Ok(actions) => {
            let mut event = "transcribe".to_string();
            event.append(".");
            event.append(event_name);
            let mode = match mode {
                Some(mode) => Some(mode.to_string()),
                None => None,
            };
            Ok(
                HookRun {
                    event,
                    mode,
                    transcript: transcript.to_string(),
                    timestamp: timestamp.to_string(),
                    actions,
                    done: 0,
                    running: false,
                    ran: 0,
                    clipboard: ClipboardSession::default(),
                },
            )
        },
    }
}

/// The hooks of the start of a transcription.
pub fn run_transcribe_start_hooks_with_transcript(
    config: &ConfigValue,
    transcript: &str,
    timestamp: &str,
) -> (r: Result<HookRun, Error>)
    ensures
        starts_run(r, config@, "start"@, None, transcript@, timestamp@),
{
    run_event_hooks(config, "start", None, transcript, timestamp)
}

/// The hooks of the end of a transcription, by its mode.
pub fn run_stop_hooks_with_transcript(
    config: &ConfigValue,
    mode: Option<&str>,
    transcript: &str,
    timestamp: &str,
) -> (r: Result<HookRun, Error>)
    ensures
        starts_run(r, config@, stop_event(str_view(mode)), str_view(mode), transcript@, timestamp@),
{
    let event_name = match mode {
        Some(mode) => {
            let mut name = "stop_".to_string();
            name.append(mode);
            name
        },
        None => "stop".to_string(),
    };
    run_event_hooks(config, event_name.as_str(), mode, transcript, timestamp)
}

impl HookRun {
    /// What the user interface is told of the event.
    fn payload(&self) -> (j: Json)
        ensures
            j@ == ui_payload(self@.event, self@.mode),
            tidy(j@),
    {
        let mode = match &self.mode {
            Some(mode) => Json::text(mode.as_str()),
            None => Json::Null,
        };
        Json::object().with("event", Json::text(self.event.as_str())).with("mode", mode)
    }

    fn external(&self, action: &str) -> (r: Result<HookStep, Error>)
        ensures
            runs_command(r, action@, shell_words_of(action@), self@),
    {
        match shell_split(action) {
            Err(problem) => {
                let mut message = "failed parsing hook command: ".to_string();
                message.append(action);
                Err(Error { message, cause: Some(problem) })
            },
            Ok(argv) => {
                if argv.len() == 0 {
                    return Err(Error::new("hook command is empty"));
                }
                let mode = match &self.mode {
                    Some(mode) => mode.clone(),
                    None => String::new(),
                };
                Ok(
                    HookStep::Run(
                        HookCommand {
                            action: action.to_string(),
                            argv,
                            event: self.event.clone(),
                            mode,
                            transcript: self.transcript.clone(),
                            timestamp: self.timestamp.clone(),
                        },
                    ),
                )
            },
        }
    }

    /// Takes the next action, and says what is to be done for it. How that came out is handed to
    /// `carried_out` before the next one is taken. After a failure nothing more is to be done.
    pub fn execute_action(&mut self) -> (r: Result<HookStep, Error>)
        requires
            !old(self)@.running,
        ensures
            if old(self)@.done >= old(self)@.actions.len() {
                r is Ok && r->Ok_0 is Finished && final(self)@ == old(self)@
            } else {
                &&& leads_action(r, old(self)@.actions[old(self)@.done], old(self)@)
                &&& !(r is Ok && r->Ok_0 is Finished)
                &&& final(self)@ == if r is Ok {
                    taken(old(self)@)
                } else {
                    stopped(old(self)@)
                }
            },
    {
        if self.done >= self.actions.len() {
            return Ok(HookStep::Finished);
        }
        let action = self.actions[self.done].clone();
        assert(self@.actions[self.done as int] == action@);
        let step = self.step_of(action.as_str());
        match step {
            Ok(_) => {
                self.done = self.done + 1;
                self.running = true;
            },
            Err(_) => {
                self.done = self.actions.len();
            },
        }
        step
    }

    /// Takes in how the action on its way came out: an `unstash` clears what was put aside once it
    /// has succeeded, and after a failure no other action is taken.
    pub fn carried_out(&mut self, succeeded: bool)
        requires
            is_running(old(self)@),
        ensures
            final(self)@ == came_out(old(self)@, succeeded),
    {
        let action = self.actions[self.done - 1].clone();
        assert(self@.actions[self.done - 1] == action@);
        self.clipboard.carried_out(action.as_str(), succeeded);
        self.running = false;
        if succeeded {
            self.ran = self.ran + 1;
        } else {
            self.done = self.actions.len();
        }
    }

    /// What is to be done for an action.
    fn step_of(&self, name: &str) -> (r: Result<HookStep, Error>)
        ensures
            leads_action(r, name@, self@),
            !(r is Ok && r->Ok_0 is Finished),
    {
        proof {
            reveal_strlit("unstash");
            reveal_strlit("show_ui");
            reveal_strlit("hide_ui");
            reveal_strlit("restore");
            assert("unstash"@[0] == 'u' && "show_ui"@[0] == 's' && "hide_ui"@[0] == 'h'
                && "restore"@[0] == 'r');
        }
        if same(name, "show_ui") {
            return Ok(HookStep::ShowUi(self.payload()));
        }
        if same(name, "hide_ui") {
            return Ok(HookStep::HideUi(self.payload()));
        }
        if same(name, "stash") || same(name, "copy") || same(name, "paste") || same(
            name,
            "unstash",
        ) {
            return match self.clipboard.execute_builtin(name, self.transcript.as_str()) {
                Ok(request) => Ok(HookStep::Clipboard(request)),
                Err(e) => Err(e),
            };
        }
        if same(name, "restore") {
            return Err(Error::new("builtin action 'restore' was renamed to 'unstash'"));
        }
        match parse_sleep_action(name) {
            Err(e) => Err(e),
            Ok(Some(millis)) => Ok(HookStep::Sleep(millis)),
            Ok(None) => self.external(name),
        }
    }

    /// Puts aside what the clipboard held.
    pub fn stash(&mut self, contents: String)
        ensures
            final(self)@ == (HookRunView { aside: Some(contents@), ..old(self)@ }),
    {
        self.clipboard.stash(contents);
    }

    /// Whether there is nothing to do at all.
    pub fn is_empty(&self) -> (r: bool)
        ensures
            r == (self@.actions.len() == 0),
    {
        self.actions.len() == 0
    }

    /// The report on the hooks: what they did, the text that says so, and the same as JSON. There
    /// is none where not all actions were carried out.
    pub fn finish(self) -> (r: Option<(HookExecutionResult, String, Json)>)
        ensures
            match r {
                Some((result, line, report)) => {
                    &&& all_ran(self@)
                    &&& result.event@ == self@.event
                    &&& views(result.actions_ran@) == self@.actions
                    &&& line@ == hooks_line(self@.event, self@.actions)
                    &&& report@ == hooks_report(self@.event, self@.actions)
                    &&& tidy(report@)
                },
                None => !all_ran(self@),
            },
    {
        if self.running || self.ran != self.actions.len() {
            return None;
        }
        let mut names: Vec<Json> = Vec::new();
        let mut i: usize = 0;
        while i < self.actions.len()
            invariant
                i <= self.actions@.len(),
                names@.len() == i,
                forall|n: int|
                    0 <= n < i ==> (#[trigger] names@[n])@ == JsonTree::Text(self.actions@[n]@),
            decreases self.actions@.len() - i,
        {
            names.push(Json::text(self.actions[i].as_str()));
            i = i + 1;
        }
        proof {
            crate::json::array_view(names);
            let trees = text_trees(views(self.actions@));
            assert(crate::json::item_trees(names@) =~= trees);
            assert forall|n: int| 0 <= n < trees.len() implies tidy(#[trigger] trees[n]) by {}
        }
        let report = Json::object().with("ok", Json::Bool(true)).with(
            "event",
            Json::text(self.event.as_str()),
        ).with("actionsRan", Json::Array(names));
        if self.actions.len() == 0 {
            let mut line = "no hooks configured for ".to_string();
            line.append(self.event.as_str());
            let report = report.with("message", Json::text("no hooks configured"));
            return Some(
                (
                    HookExecutionResult { event: self.event, actions_ran: self.actions },
                    line,
                    report,
                ),
            );
        }
        let mut line = "ran ".to_string();
        line.append(decimal_text(self.actions.len() as u64).as_str());
        line.append(" hook action(s) for ");
        line.append(self.event.as_str());
        Some((HookExecutionResult { event: self.event, actions_ran: self.actions }, line, report))
    }
}

/// What became of an action.
pub enum ActionFate {
    CarriedOut,
    /// Nothing could be done for it.
    Refused,
    /// What was done for it failed.
    Failed,
}

/// The hooks once their next action, where there is one, has met its fate.
pub open spec fn after_action(run: HookRunView, fate: ActionFate) -> HookRunView {
    if run.done >= run.actions.len() {
        run
    } else {
        match fate {
            ActionFate::CarriedOut => came_out(taken(run), true),
            ActionFate::Refused => stopped(run),
            ActionFate::Failed => came_out(taken(run), false),
        }
    }
}

/// The hooks once their actions have met these fates, in the order in which they were taken.
pub open spec fn after_actions(run: HookRunView, fates: Seq<ActionFate>) -> HookRunView
    decreases fates.len(),
{
    if fates.len() == 0 {
        run
    } else {
        after_action(after_actions(run, fates.drop_last()), fates.last())
    }
}

/// Whether the hooks stand at their start.
pub open spec fn at_start(run: HookRunView) -> bool {
    !run.running && run.done == 0 && run.ran == 0
}

/// As long as all goes well, each action is taken and carried out once, in the order of the list;
/// the hooks are through with the last one.
pub proof fn actions_run_in_order(run: HookRunView, fates: Seq<ActionFate>)
    requires
        at_start(run),
        fates.len() <= run.actions.len(),
        forall|i: int| 0 <= i < fates.len() ==> #[trigger] fates[i] is CarriedOut,
    ensures
        after_actions(run, fates).actions == run.actions,
        after_actions(run, fates).done == fates.len(),
        after_actions(run, fates).ran == fates.len(),
        !after_actions(run, fates).running,
        all_ran(after_actions(run, fates)) == (fates.len() == run.actions.len()),
    decreases fates.len(),
{
    if fates.len() > 0 {
        let before = fates.drop_last();
        assert forall|i: int| 0 <= i < before.len() implies #[trigger] before[i] is CarriedOut by {
            assert(before[i] == fates[i]);
        }
        actions_run_in_order(run, before);
        assert(fates[fates.len() - 1] is CarriedOut);
    }
}

/// Once an action has failed, no later one is taken, whatever is to come, and the hooks are not
/// through: exactly those before it were carried out.
pub proof fn actions_stop_at_a_failure(run: HookRunView, fates: Seq<ActionFate>, failed: int)
    requires
        at_start(run),
        0 <= failed < fates.len(),
        failed < run.actions.len(),
        forall|i: int| 0 <= i < failed ==> #[trigger] fates[i] is CarriedOut,
        !(fates[failed] is CarriedOut),
    ensures
        after_actions(run, fates).ran == failed,
        after_actions(run, fates).done == run.actions.len(),
        !after_actions(run, fates).running,
        !all_ran(after_actions(run, fates)),
        after_actions(run, fates) == after_actions(run, fates.take(failed + 1)),
    decreases fates.len(),
{
    let before = fates.drop_last();
    if fates.len() == failed + 1 {
        assert forall|i: int| 0 <= i < before.len() implies #[trigger] before[i] is CarriedOut by {
            assert(before[i] == fates[i]);
        }
        actions_run_in_order(run, before);
        assert(fates.take(failed + 1) =~= fates);
    } else {
        assert forall|i: int| 0 <= i < failed implies #[trigger] before[i] is CarriedOut by {
            assert(before[i] == fates[i]);
        }
        assert(before[failed] == fates[failed]);
        actions_stop_at_a_failure(run, before, failed);
        assert(before.take(failed + 1) =~= fates.take(failed + 1));
        actions_stay(run, before);
    }
}

/// The list of actions stays as it is.
proof fn actions_stay(run: HookRunView, fates: Seq<ActionFate>)
    ensures
        after_actions(run, fates).actions == run.actions,
    decreases fates.len(),
{
    if fates.len() > 0 {
        actions_stay(run, fates.drop_last());
    }
}

/// Texts as JSON.
pub open spec fn text_trees(s: Seq<Seq<char>>) -> Seq<JsonTree> {
    Seq::new(s.len(), |i: int| JsonTree::Text(s[i]))
}

/// The line that says what hooks did.
pub open spec fn hooks_line(event: Seq<char>, actions: Seq<Seq<char>>) -> Seq<char> {
    if actions.len() == 0 {
        "no hooks configured for "@ + event
    } else {
        "ran "@ + decimal(actions.len()) + " hook action(s) for "@ + event
    }
}

/// What hooks did, as JSON.
pub open spec fn hooks_report(event: Seq<char>, actions: Seq<Seq<char>>) -> JsonTree {
    let base = put(
        put(put(no_fields(), "ok"@, JsonTree::Bool(true)), "event"@, JsonTree::Text(event)),
        "actionsRan"@,
        JsonTree::Array(text_trees(actions)),
    );
    JsonTree::Object(
        if actions.len() == 0 {
            put(base, "message"@, JsonTree::Text("no hooks configured"@))
        } else {
            base
        },
    )
}

// ---------------------------------------------------------------------------------------------
// Waiting for a command
// ---------------------------------------------------------------------------------------------

/// How long a command of a hook may take, in milliseconds.
pub const HOOK_TIMEOUT_MS: u64 = 2_000;

/// How a command that was looked after is.
#[derive(Debug)]
pub enum CommandState {
    Running,
    Succeeded,
    /// It ended with this status.
    Failed(String),
}

/// What is to be done about a command.
#[derive(Debug)]
pub enum WaitStep {
    /// Look again after a short while.
    Wait,
    Done,
    /// Report this.
    Fail(Error),
    /// End the command, and report this.
    Kill(Error),
}

/// What is to be done about a command that has run for this long: one that ended is done with
/// before its time is looked at.
pub fn await_command(action: &str, state: CommandState, elapsed_ms: u64) -> (r: WaitStep)
    ensures
        match state {
            CommandState::Succeeded => r is Done,
            CommandState::Failed(status) => r is Fail && r->Fail_0.cause is None
                && r->Fail_0.message@ == "hook command failed ("@ + action@ + ") with status "@
                + status@,
            CommandState::Running => if elapsed_ms >= HOOK_TIMEOUT_MS {
                r is Kill && r->Kill_0.cause is None && r->Kill_0.message@
                    == "hook command timed out after 2s: "@ + action@
            } else {
                r is Wait
            },
        },
{
    match state {
        CommandState::Succeeded => WaitStep::Done,
        CommandState::Failed(status) => {
            let mut message = "hook command failed (".to_string();
            message.append(action);
            message.append(") with status ");
            message.append(status.as_str());
            WaitStep::Fail(Error { message, cause: None })
        },
        CommandState::Running => {
            if elapsed_ms >= HOOK_TIMEOUT_MS {
                let mut message = "hook command timed out after 2s: ".to_string();
                message.append(action);
                WaitStep::Kill(Error { message, cause: None })
            } else {
                WaitStep::Wait
            }
        },
    }
}

/// The line of the log for a message.
pub fn log_line(now_ms: u64, message: &str) -> (r: String)
    ensures
        r@ == "["@ + decimal(now_ms as nat) + "] "@ + message@,
{
    let mut line = "[".to_string();
    line.append(decimal_text(now_ms).as_str());
    line.append("] ");
    line.append(message);
    line
}

// ---------------------------------------------------------------------------------------------
// Starting the user interface
// ---------------------------------------------------------------------------------------------

/// One way to start the user interface.
#[derive(Debug)]
pub struct UiLaunch {
    pub program: String,
    pub args: Vec<String>,
    pub directory: Option<String>,
    /// What it is called where it fails.
    pub label: String,
}

/// How the user interface is to be started.
#[derive(Debug)]
pub enum UiLaunchPlan {
    /// It runs already.
    Running,
    /// This program is configured in its place.
    Replacement(String),
    /// These ways are tried in turn.
    Attempts(Vec<UiLaunch>),
}

/// A way to start the user interface, apart from how it is held: the program, its arguments, the
/// directory and the label.
pub open spec fn launch_view(l: UiLaunch) -> (
    Seq<char>,
    Seq<Seq<char>>,
    Option<Seq<char>>,
    Seq<char>,
) {
    (l.program@, views(l.args@), option_view(l.directory), l.label@)
}

/// The ways to start the user interface, in the order in which they are tried: the program beside
/// this one where it is there, the program on the search path, and a build where the sources are
/// there.
pub open spec fn launch_ways(sibling: Option<&str>, sources: Option<&str>) -> Seq<
    (Seq<char>, Seq<Seq<char>>, Option<Seq<char>>, Seq<char>),
> {
    let first = match sibling {
        Some(path) => seq![(path@, Seq::<Seq<char>>::empty(), None::<Seq<char>>, path@)],
        None => Seq::empty(),
    };
    let second = first.push(
        ("omni-transcribe-ui"@, Seq::<Seq<char>>::empty(), None, "omni-transcribe-ui"@),
    );
    match sources {
        Some(dir) => second.push(
            (
                "cargo"@,
                seq!["run"@, "--bin"@, "omni-transcribe-ui"@, "--"@],
                Some(dir@),
                "cargo run --bin omni-transcribe-ui"@,
            ),
        ),
        None => second,
    }
}

/// The views of ways to start the user interface.
pub open spec fn launch_views(s: Seq<UiLaunch>) -> Seq<
    (Seq<char>, Seq<Seq<char>>, Option<Seq<char>>, Seq<char>),
> {
    Seq::new(s.len(), |i: int| launch_view(s[i]))
}

/// How the user interface is to be started. `replacement` is the program configured in its place,
/// `sibling` the program beside this one and `sources` the directory of the sources, where they
/// are there.
pub fn plan_ui_launch(
    running: bool,
    replacement: Option<&str>,
    sibling: Option<&str>,
    sources: Option<&str>,
) -> (r: UiLaunchPlan)
    ensures
        if running {
            r is Running
        } else {
            match crate::text::given(replacement) {
                Some(program) => r is Replacement && r->Replacement_0@ == program,
                None => r is Attempts && launch_views(r->Attempts_0@) == launch_ways(
                    sibling,
                    sources,
                ),
            }
        },
{
    if running {
        return UiLaunchPlan::Running;
    }
    if let Some(program) = crate::text::given_text(replacement) {
        return UiLaunchPlan::Replacement(program.to_string());
    }
    let mut ways: Vec<UiLaunch> = Vec::new();
    if let Some(path) = sibling {
        let none: Vec<String> = Vec::new();
        assert(views(none@) =~= Seq::empty());
        ways.push(
            UiLaunch {
                program: path.to_string(),
                args: none,
                directory: None,
                label: path.to_string(),
            },
        );
    }
    let none: Vec<String> = Vec::new();
    assert(views(none@) =~= Seq::empty());
    ways.push(
        UiLaunch {
            program: "omni-transcribe-ui".to_string(),
            args: none,
            directory: None,
            label: "omni-transcribe-ui".to_string(),
        },
    );
    if let Some(dir) = sources {
        let args: Vec<String> = vec![
            "run".to_string(),
            "--bin".to_string(),
            "omni-transcribe-ui".to_string(),
            "--".to_string(),
        ];
        assert(views(args@) =~= seq!["run"@, "--bin"@, "omni-transcribe-ui"@, "--"@]);
        ways.push(
            UiLaunch {
                program: "cargo".to_string(),
                args,
                directory: Some(dir.to_string()),
                label: "cargo run --bin omni-transcribe-ui".to_string(),
            },
        );
    }
    assert(launch_views(ways@) =~= launch_ways(sibling, sources));
    UiLaunchPlan::Attempts(ways)
}

/// Each way that failed, with the reason.
pub open spec fn launch_failures(ways: Seq<UiLaunch>, reasons: Seq<String>) -> Seq<Seq<char>> {
    Seq::new(
        reasons.len(),
        |i: int| ways[i].label@ + " ("@ + reasons[i]@ + ")"@,
    )
}

/// What is said where every way to start the user interface failed, each for its reason.
pub fn ui_launch_failed(ways: &Vec<UiLaunch>, reasons: &Vec<String>) -> (e: Error)
    requires
        ways@.len() == reasons@.len(),
    ensures
        e.cause is None,
        e.message@ == "ui client launch attempts failed: "@ + crate::text::joined(
            launch_failures(ways@, reasons@),
            "; "@,
        ),
{
    let mut lines: Vec<String> = Vec::new();
    let mut i: usize = 0;
    while i < ways.len()
        invariant
            ways@.len() == reasons@.len(),
            i <= ways@.len(),
            lines@.len() == i,
            forall|n: int|
                0 <= n < i ==> (#[trigger] lines@[n])@ == launch_failures(ways@, reasons@)[n],
        decreases ways@.len() - i,
    {
        let mut line = ways[i].label.clone();
        line.append(" (");
        line.append(reasons[i].as_str());
        line.append(")");
        lines.push(line);
        i = i + 1;
    }
    assert(views(lines@) =~= launch_failures(ways@, reasons@));
    let mut message = "ui client launch attempts failed: ".to_string();
    message.append(crate::text::join(&lines, "; ").as_str());
    Error { message, cause: None }
}

/// The hooks of the end of a transcription with a mode lie apart from those without one.
proof fn modes_lie_apart(mode: Seq<char>)
    ensures
        apart(
            key_path(hook_key("transcribe"@, stop_event(None))),
            key_path(hook_key("transcribe"@, stop_event(Some(mode)))),
        ),
        apart(
            key_path(hook_key("transcribe"@, stop_event(Some(mode)))),
            key_path(hook_key("transcribe"@, stop_event(None))),
        ),
{
    let prefix = "event.hooks."@ + "transcribe"@;
    reveal_strlit(".");
    reveal_strlit("stop");
    reveal_strlit("stop_");
    assert(prefix + "."@ =~= prefix.push('.'));
    key_path_after_dot(prefix, "stop"@);
    key_path_after_dot(prefix, "stop_"@ + mode);
    let plain = key_path("stop"@);
    let moded = key_path("stop_"@ + mode);
    first_name_begins_with("stop_"@, mode);
    trimmed_start_is_tight("stop"@);
    trimmed_end_is_tight("stop"@);
    key_without_dots("stop"@);
    apart_after_prefix(key_path(prefix), plain, moded);
    apart_after_prefix(key_path(prefix), moded, plain);
}

/// The hooks of the end of a transcription with a mode and those without one are independent:
/// whatever is set as one of them, the other stays as it is.
pub proof fn modes_have_their_own_hooks(t: Tree, mode: Seq<char>, v: Tree)
    ensures
        actions_for(
            with_path(t, key_path(hook_key("transcribe"@, stop_event(None))), v),
            "transcribe"@,
            stop_event(Some(mode)),
        ) == actions_for(t, "transcribe"@, stop_event(Some(mode))),
        actions_for(
            with_path(t, key_path(hook_key("transcribe"@, stop_event(Some(mode)))), v),
            "transcribe"@,
            stop_event(None),
        ) == actions_for(t, "transcribe"@, stop_event(None)),
{
    let plain = key_path(hook_key("transcribe"@, stop_event(None)));
    let moded = key_path(hook_key("transcribe"@, stop_event(Some(mode))));
    modes_lie_apart(mode);
    set_leaves_the_rest(t, plain, v, moded);
    set_leaves_the_rest(t, moded, v, plain);
}

// ---------------------------------------------------------------------------------------------
// Laws of the hooks in the configuration
// ---------------------------------------------------------------------------------------------

/// The actions of an event are those that the configuration lists for it, all of them and in the
/// order of the list; one text is one action, and where nothing is configured there is none.
pub proof fn actions_are_as_configured(
    config: &ConfigValue,
    domain: &str,
    event: &str,
    r: Result<Vec<String>, Error>,
    items: Seq<Tree>,
    action: Seq<char>,
)
    requires
        call_ensures(hook_actions_for_event, (config, domain, event), r),
    ensures
        ({
            let key = "event.hooks."@ + domain@ + "."@ + event@;
            &&& value_at(config@, key) is None ==> r is Ok && r->Ok_0@.len() == 0
            &&& value_at(config@, key) == Some(Tree::Text(action)) ==> r is Ok && r->Ok_0@.len()
                == 1 && r->Ok_0@[0]@ == action
            &&& value_at(config@, key) == Some(Tree::Array(items)) && (forall|i: int|
                0 <= i < items.len() ==> (#[trigger] items[i]) is Text) ==> {
                &&& r is Ok
                &&& r->Ok_0@.len() == items.len()
                &&& forall|i: int|
                    0 <= i < items.len() ==> #[trigger] items[i] == Tree::Text(r->Ok_0@[i]@)
            }
            &&& value_at(config@, key) == Some(Tree::Array(items)) && (exists|i: int|
                0 <= i < items.len() && !((#[trigger] items[i]) is Text)) ==> r is Err
        }),
{
    let key = hook_key(domain@, event@);
    if r is Ok {
        let names = views(r->Ok_0@);
        assert(names.len() == r->Ok_0@.len());
        assert forall|i: int| 0 <= i < names.len() implies #[trigger] names[i]
            == r->Ok_0@[i]@ by {}
        if value_at(config@, key) == Some(Tree::Text(action)) {
            assert(names[0] == action);
        }
        if value_at(config@, key) == Some(Tree::Array(items)) && all_texts(items) {
            assert forall|i: int| 0 <= i < items.len() implies #[trigger] items[i] == Tree::Text(
                r->Ok_0@[i]@,
            ) by {
                assert(texts_in(items)[i] == names[i]);
            }
        }
    }
}

/// Where the hooks of a configuration were found to be right, the hooks of the start and of every
/// end of a transcription can be run.
pub proof fn right_hooks_can_be_run(
    config: &ConfigValue,
    valid: Result<(), Error>,
    transcript: &str,
    timestamp: &str,
    start: Result<HookRun, Error>,
    end: Result<HookRun, Error>,
)
    requires
        call_ensures(validate_hook_config, (config,), valid),
        valid is Ok,
        call_ensures(
            run_transcribe_start_hooks_with_transcript,
            (config, transcript, timestamp),
            start,
        ),
        call_ensures(run_stop_hooks_with_transcript, (config, None, transcript, timestamp), end),
    ensures
        start is Ok,
        end is Ok,
{
    reveal_strlit("start");
    reveal_strlit("stop");
    trimmed_start_is_tight("start"@);
    trimmed_end_is_tight("start"@);
    trimmed_start_is_tight("stop"@);
    trimmed_end_is_tight("stop"@);
    key_without_dots("start"@);
    key_without_dots("stop"@);
    right_hooks_have_actions(config@, "start"@);
    right_hooks_have_actions(config@, "stop"@);
}

// ---------------------------------------------------------------------------------------------
// Laws of the actions
// ---------------------------------------------------------------------------------------------

proof fn builtins_differ()
    ensures
        "show_ui"@ != "hide_ui"@,
        "show_ui"@ != "stash"@,
        "show_ui"@ != "copy"@,
        "show_ui"@ != "paste"@,
        "show_ui"@ != "unstash"@,
        "show_ui"@ != "restore"@,
        "hide_ui"@ != "stash"@,
        "hide_ui"@ != "copy"@,
        "hide_ui"@ != "paste"@,
        "hide_ui"@ != "unstash"@,
        "hide_ui"@ != "restore"@,
        "stash"@ != "copy"@,
        "stash"@ != "paste"@,
        "stash"@ != "unstash"@,
        "copy"@ != "paste"@,
        "copy"@ != "unstash"@,
        "paste"@ != "unstash"@,
        "restore"@ != "stash"@,
        "restore"@ != "copy"@,
        "restore"@ != "paste"@,
        "restore"@ != "unstash"@,
{
    reveal_strlit("show_ui");
    reveal_strlit("hide_ui");
    reveal_strlit("stash");
    reveal_strlit("copy");
    reveal_strlit("paste");
    reveal_strlit("unstash");
    reveal_strlit("restore");
    assert("show_ui"@[0] == 's' && "show_ui"@.len() == 7 && "hide_ui"@[0] == 'h');
    assert("stash"@[0] == 's' && "stash"@.len() == 5 && "copy"@[0] == 'c');
    assert("paste"@[0] == 'p' && "unstash"@[0] == 'u' && "restore"@[0] == 'r');
}

/// The hooks of the end of a transcription know its transcript, its mode and the time, stand at
/// their start, and have nothing aside. Their event is named by the mode.
pub proof fn end_hooks_know_the_transcript(
    config: &ConfigValue,
    mode: Option<&str>,
    transcript: &str,
    timestamp: &str,
    r: Result<HookRun, Error>,
)
    requires
        call_ensures(run_stop_hooks_with_transcript, (config, mode, transcript, timestamp), r),
        r is Ok,
    ensures
        r->Ok_0@.transcript == transcript@,
        r->Ok_0@.timestamp == timestamp@,
        r->Ok_0@.mode == str_view(mode),
        mode is None ==> r->Ok_0@.event == "transcribe"@ + "."@ + "stop"@,
        mode is Some ==> r->Ok_0@.event == "transcribe"@ + "."@ + ("stop_"@ + mode->0@),
        r->Ok_0@.done == 0,
        !r->Ok_0@.running,
        r->Ok_0@.aside is None,
{
}

/// The first action of the hooks of the end of a transcription, where it is `copy`, asks for exactly
/// the transcript to be written.
pub proof fn first_copy_takes_the_transcript(
    config: &ConfigValue,
    mode: Option<&str>,
    transcript: &str,
    timestamp: &str,
    start: Result<HookRun, Error>,
    run: &mut HookRun,
    r: Result<HookStep, Error>,
    items: Seq<Tree>,
)
    requires
        call_ensures(run_stop_hooks_with_transcript, (config, mode, transcript, timestamp), start),
        mode is None,
        ({
            let key = "event.hooks."@ + "transcribe"@ + "."@ + "stop"@;
            ||| value_at(config@, key) == Some(Tree::Text("copy"@))
            ||| {
                &&& value_at(config@, key) == Some(Tree::Array(items))
                &&& items.len() > 0
                &&& items[0] == Tree::Text("copy"@)
                &&& forall|i: int| 0 <= i < items.len() ==> (#[trigger] items[i]) is Text
            }
        }),
        *old(run) == start->Ok_0,
        call_ensures(HookRun::execute_action, (run,), r),
    ensures
        start is Ok,
        r is Ok,
        r->Ok_0 is Clipboard,
        r->Ok_0->Clipboard_0 is Write,
        r->Ok_0->Clipboard_0->Write_0@ == transcript@,
{
    builtins_differ();
    let key = hook_key("transcribe"@, "stop"@);
    if value_at(config@, key) == Some(Tree::Array(items)) {
        assert(all_texts(items));
        assert(texts_in(items)[0] == "copy"@);
    }
}

/// What each action on the clipboard asks for, wherever it stands in the list: `copy` exactly the
/// transcript to be written, `stash` the contents to be read, `paste` a paste, and `unstash` exactly
/// what was put aside to be written again.
pub proof fn clipboard_actions_ask(run: &mut HookRun, r: Result<HookStep, Error>)
    requires
        call_ensures(HookRun::execute_action, (run,), r),
        0 <= old(run)@.done < old(run)@.actions.len(),
    ensures
        ({
            let action = old(run)@.actions[old(run)@.done];
            &&& action == "copy"@ ==> r is Ok && r->Ok_0 is Clipboard
                && r->Ok_0->Clipboard_0 is Write
                    && r->Ok_0->Clipboard_0->Write_0@ == old(run)@.transcript
            &&& action == "stash"@ ==> r is Ok && r->Ok_0 is Clipboard
                && r->Ok_0->Clipboard_0 is Read
            &&& action == "paste"@ ==> r is Ok && r->Ok_0 is Clipboard
                && r->Ok_0->Clipboard_0 is Paste
            &&& action == "unstash"@ && old(run)@.aside is Some ==> r is Ok && r->Ok_0 is Clipboard
                && r->Ok_0->Clipboard_0 is Write
                    && r->Ok_0->Clipboard_0->Write_0@ == old(run)@.aside->0
            &&& action == "unstash"@ && old(run)@.aside is None ==> r is Ok && r->Ok_0 is Clipboard
                && r->Ok_0->Clipboard_0 is Nothing
        }),
{
    builtins_differ();
}

/// The user interface is shown and hidden by the actions for it, and told the event and the mode.
pub proof fn interface_actions_ask(run: &mut HookRun, r: Result<HookStep, Error>)
    requires
        call_ensures(HookRun::execute_action, (run,), r),
        0 <= old(run)@.done < old(run)@.actions.len(),
    ensures
        ({
            let action = old(run)@.actions[old(run)@.done];
            &&& action == "show_ui"@ ==> r is Ok && r->Ok_0 is ShowUi && tells_event(
                r->Ok_0->ShowUi_0@,
                old(run)@,
            )
            &&& action == "hide_ui"@ ==> r is Ok && r->Ok_0 is HideUi && tells_event(
                r->Ok_0->HideUi_0@,
                old(run)@,
            )
            &&& action == "restore"@ ==> r is Err
        }),
{
    builtins_differ();
    reveal_strlit("event");
    reveal_strlit("mode");
    assert("event"@.len() == 5 && "mode"@.len() == 4);
    let view = old(run)@;
    let mode = match view.mode {
        Some(mode) => JsonTree::Text(mode),
        None => JsonTree::Null,
    };
    let a = put(no_fields(), "event"@, JsonTree::Text(view.event));
    lookups_after_put(no_fields(), "event"@, JsonTree::Text(view.event));
    lookups_after_put(a, "mode"@, mode);
}

/// Whether a payload tells the event of the hooks and its mode.
pub open spec fn tells_event(payload: JsonTree, run: HookRunView) -> bool {
    &&& payload is Object
    &&& lookup(payload->Object_0, "event"@) == Some(JsonTree::Text(run.event))
    &&& run.mode is Some ==> lookup(payload->Object_0, "mode"@) == Some(
        JsonTree::Text(run.mode->0),
    )
    &&& run.mode is None ==> lookup(payload->Object_0, "mode"@) == Some(JsonTree::Null)
}

/// A `sleep` with a number waits for that many milliseconds.
pub proof fn sleep_waits_as_asked(action: &str, millis: u64, r: Result<Option<u64>, Error>)
    requires
        call_ensures(parse_sleep_action, (action,), r),
        action@ == "sleep"@ + " "@ + decimal(millis as nat),
    ensures
        r is Ok,
        r->Ok_0 == Some(millis),
{
    sleep_is_read(millis);
}

proof fn sleep_is_read(millis: u64)
    ensures
        sleep_asked("sleep"@ + " "@ + decimal(millis as nat)) == SleepView::Millis(millis as int),
{
    reveal_strlit("sleep");
    reveal_strlit(" ");
    let number = decimal(millis as nat);
    let action = "sleep"@ + " "@ + number;
    let none = Seq::<char>::empty();
    decimal_is_read_back(millis as nat);
    assert(action =~= "sleep"@.push(' ') + number);
    assert(is_white_char(' '));
    assert forall|i: int| 0 <= i < number.len() implies !is_white_char(#[trigger] number[i]) by {
        assert(is_digit(number[i]));
    }
    assert(without_white(number));
    assert(without_white("sleep"@));
    words_of_parts("sleep"@, ' ', number);
    words_of_parts(none, ' ', "sleep"@);
    assert(words(action) =~= seq!["sleep"@, number]);
    number_is_parsed(millis as nat, u64::MAX as int);
}

/// An action `sleep` with a number, wherever it stands in the list, waits for that many milliseconds.
pub proof fn sleep_action_waits_as_asked(
    run: &mut HookRun,
    r: Result<HookStep, Error>,
    millis: u64,
)
    requires
        call_ensures(HookRun::execute_action, (run,), r),
        0 <= old(run)@.done < old(run)@.actions.len(),
        old(run)@.actions[old(run)@.done] == "sleep"@ + " "@ + decimal(millis as nat),
    ensures
        r is Ok,
        r->Ok_0 is Sleep,
        r->Ok_0->Sleep_0 == millis,
{
    sleep_is_read(millis);
    let action = "sleep"@ + " "@ + decimal(millis as nat);
    decimal_is_read_back(millis as nat);
    reveal_strlit("sleep");
    reveal_strlit(" ");
    reveal_strlit("show_ui");
    reveal_strlit("hide_ui");
    reveal_strlit("stash");
    reveal_strlit("copy");
    reveal_strlit("paste");
    reveal_strlit("unstash");
    reveal_strlit("restore");
    assert(action[0] == 's' && action[1] == 'l' && action.len() >= 7);
    assert("show_ui"@[1] == 'h' && "hide_ui"@[0] == 'h' && "stash"@[1] == 't');
    assert("copy"@[0] == 'c' && "paste"@[0] == 'p' && "unstash"@[0] == 'u');
    assert("restore"@[0] == 'r');
}

/// Any other action is a command: it is run with the words that a shell makes of it, and is told
/// the event, the mode, exactly the transcript, and the time.
pub proof fn command_is_told_the_transcript(
    run: &mut HookRun,
    r: Result<HookStep, Error>,
    parts: Seq<Seq<char>>,
)
    requires
        call_ensures(HookRun::execute_action, (run,), r),
        0 <= old(run)@.done < old(run)@.actions.len(),
        ({
            let action = old(run)@.actions[old(run)@.done];
            &&& action != "show_ui"@
            &&& action != "hide_ui"@
            &&& action != "stash"@
            &&& action != "copy"@
            &&& action != "paste"@
            &&& action != "unstash"@
            &&& action != "restore"@
            &&& words(action).len() > 0 ==> words(action)[0] != "sleep"@
            &&& shell_words_of(action) == Some(parts)
        }),
    ensures
        parts.len() == 0 ==> r is Err,
        parts.len() > 0 ==> {
            &&& r is Ok
            &&& r->Ok_0 is Run
            &&& r->Ok_0->Run_0.action@ == old(run)@.actions[old(run)@.done]
            &&& r->Ok_0->Run_0.argv@.len() == parts.len()
            &&& forall|i: int|
                0 <= i < parts.len() ==> (#[trigger] r->Ok_0->Run_0.argv@[i])@ == parts[i]
            &&& r->Ok_0->Run_0.transcript@ == old(run)@.transcript
            &&& r->Ok_0->Run_0.event@ == old(run)@.event
            &&& r->Ok_0->Run_0.timestamp@ == old(run)@.timestamp
            &&& old(run)@.mode is Some ==> r->Ok_0->Run_0.mode@ == old(run)@.mode->0
            &&& old(run)@.mode is None ==> r->Ok_0->Run_0.mode@.len() == 0
        },
{
    if parts.len() > 0 {
        let argv = r->Ok_0->Run_0.argv@;
        assert(views(argv) == parts);
        assert forall|i: int| 0 <= i < parts.len() implies (#[trigger] argv[i])@ == parts[i] by {
            assert(views(argv)[i] == argv[i]@);
        }
    }
}

/// Taking an action and handing in how it came out leave what the hooks know: the transcript, the
/// event, the mode, the time and the list of actions.
pub proof fn hooks_keep_what_they_know(
    run: &mut HookRun,
    succeeded: bool,
    contents: String,
    r: Result<HookStep, Error>,
)
    requires
        ({
            ||| call_ensures(HookRun::execute_action, (run,), r)
            ||| call_ensures(HookRun::carried_out, (run, succeeded), ())
            ||| call_ensures(HookRun::stash, (run, contents), ())
        }),
    ensures
        final(run)@.transcript == old(run)@.transcript,
        final(run)@.event == old(run)@.event,
        final(run)@.mode == old(run)@.mode,
        final(run)@.timestamp == old(run)@.timestamp,
        final(run)@.actions == old(run)@.actions,
{
}

/// After an action that was carried out the next of the list is taken, and none is left out.
pub proof fn next_action_follows(
    run: &mut HookRun,
    r: Result<HookStep, Error>,
    later: &mut HookRun,
)
    requires
        !old(run)@.running,
        0 <= old(run)@.done < old(run)@.actions.len(),
        old(run)@.ran == old(run)@.done,
        call_ensures(HookRun::execute_action, (run,), r),
        r is Ok,
        *old(later) == *final(run),
        call_ensures(HookRun::carried_out, (later, true), ()),
    ensures
        !(r->Ok_0 is Finished),
        final(later)@.done == old(run)@.done + 1,
        final(later)@.ran == old(run)@.ran + 1,
        !final(later)@.running,
{
}

/// After a failure nothing more is to be done, and there is no report of success.
pub proof fn failure_ends_the_hooks(
    run: &mut HookRun,
    later: &mut HookRun,
    r: Result<HookStep, Error>,
    last: HookRun,
    report: Option<(HookExecutionResult, String, Json)>,
)
    requires
        is_running(old(run)@),
        call_ensures(HookRun::carried_out, (run, false), ()),
        *old(later) == *final(run),
        call_ensures(HookRun::execute_action, (later,), r),
        last == *final(later),
        call_ensures(HookRun::finish, (last,), report),
    ensures
        r is Ok,
        r->Ok_0 is Finished,
        report is None,
{
}

/// The report on hooks that are through lists every action of the event, in the order of the list.
pub proof fn report_lists_the_actions(
    run: HookRun,
    report: Option<(HookExecutionResult, String, Json)>,
)
    requires
        call_ensures(HookRun::finish, (run,), report),
        !run@.running,
        run@.ran == run@.actions.len(),
    ensures
        report is Some,
        (report->0).0.event@ == run@.event,
        (report->0).0.actions_ran@.len() == run@.actions.len(),
        forall|i: int|
            0 <= i < run@.actions.len() ==> (#[trigger] (report->0).0.actions_ran@[i])@
                == run@.actions[i],
        run@.actions.len() > 0 ==> (report->0).1@ == "ran "@ + decimal(run@.actions.len())
            + " hook action(s) for "@ + run@.event,
        run@.actions.len() == 0 ==> (report->0).1@ == "no hooks configured for "@ + run@.event,
{
    let ran = (report->0).0.actions_ran@;
    assert(views(ran) == run@.actions);
    assert forall|i: int| 0 <= i < run@.actions.len() implies (#[trigger] ran[i])@
        == run@.actions[i] by {
        assert(views(ran)[i] == ran[i]@);
    }
}

/// A command is waited for while it runs, for less than two seconds; it is ended then. How it ended
/// is told.
pub proof fn command_has_its_time(
    action: &str,
    state: CommandState,
    elapsed_ms: u64,
    r: WaitStep,
)
    requires
        call_ensures(await_command, (action, state, elapsed_ms), r),
    ensures
        state is Running && elapsed_ms < 2_000 ==> r is Wait,
        state is Running && elapsed_ms >= 2_000 ==> r is Kill,
        state is Succeeded ==> r is Done,
        state matches CommandState::Failed(status) ==> r is Fail && r->Fail_0.message@
            == "hook command failed ("@ + action@ + ") with status "@ + status@,
{
}

/// The user interface is not started twice; a program that is configured in its place is started
/// instead; else the program beside this one is tried first, where it is there.
pub proof fn interface_is_started_once(
    running: bool,
    replacement: Option<&str>,
    sibling: Option<&str>,
    sources: Option<&str>,
    r: UiLaunchPlan,
    ink: Seq<char>,
)
    requires
        call_ensures(plan_ui_launch, (running, replacement, sibling, sources), r),
    ensures
        running <==> r is Running,
        !running && replacement is Some && is_ink_of(ink, replacement->0@) && ink.len() > 0
            ==> r is Replacement && r->Replacement_0@ == ink,
        !running && replacement is None ==> {
            &&& r is Attempts
            &&& r->Attempts_0@.len() == 1 + (if sibling is Some {
                1int
            } else {
                0
            }) + (if sources is Some {
                1int
            } else {
                0
            })
            &&& sibling is Some ==> r->Attempts_0@[0].program@ == sibling->0@
                && r->Attempts_0@[1].program@ == "omni-transcribe-ui"@
            &&& sibling is None ==> r->Attempts_0@[0].program@ == "omni-transcribe-ui"@
            &&& sources is Some ==> r->Attempts_0@.last().program@ == "cargo"@
                && r->Attempts_0@.last().directory is Some
                && r->Attempts_0@.last().directory->0@ == sources->0@
        },
{
    if replacement is Some && is_ink_of(ink, replacement->0@) {
        ink_is_unique(ink, replacement->0@);
    }
    if !running && replacement is None {
        let ways = launch_views(r->Attempts_0@);
        assert(ways.len() == r->Attempts_0@.len());
        assert(ways[0] == launch_view(r->Attempts_0@[0]));
        if ways.len() > 1 {
            assert(ways[1] == launch_view(r->Attempts_0@[1]));
        }
        assert(ways.last() == launch_view(r->Attempts_0@.last()));
    }
}

/// The hooks of the start of a transcription know the transcript and the time, and stand at their
/// start; their actions are those listed under `start`.
pub proof fn start_hooks_are_those_listed(
    config: &ConfigValue,
    transcript: &str,
    timestamp: &str,
    event: &str,
    domain: &str,
    listed: Result<Vec<String>, Error>,
    r: Result<HookRun, Error>,
)
    requires
        call_ensures(run_transcribe_start_hooks_with_transcript, (config, transcript, timestamp), r),
        domain@ == "transcribe"@,
        event@ == "start"@,
        call_ensures(hook_actions_for_event, (config, domain, event), listed),
    ensures
        r is Ok <==> listed is Ok,
        r is Ok ==> {
            &&& r->Ok_0@.actions == views(listed->Ok_0@)
            &&& r->Ok_0@.transcript == transcript@
            &&& r->Ok_0@.timestamp == timestamp@
            &&& r->Ok_0@.mode is None
            &&& r->Ok_0@.event == "transcribe"@ + "."@ + "start"@
            &&& r->Ok_0@.done == 0 && !r->Ok_0@.running && r->Ok_0@.ran == 0
        },
{
}

/// The actions of the hooks of an end are those listed for it: under `stop`, or under the name of
/// the mode behind `stop_`.
pub proof fn end_hooks_are_those_listed(
    config: &ConfigValue,
    mode: Option<&str>,
    transcript: &str,
    timestamp: &str,
    event: &str,
    domain: &str,
    listed: Result<Vec<String>, Error>,
    r: Result<HookRun, Error>,
)
    requires
        call_ensures(run_stop_hooks_with_transcript, (config, mode, transcript, timestamp), r),
        domain@ == "transcribe"@,
        mode is None ==> event@ == "stop"@,
        mode is Some ==> event@ == "stop_"@ + mode->0@,
        call_ensures(hook_actions_for_event, (config, domain, event), listed),
    ensures
        r is Ok <==> listed is Ok,
        r is Ok ==> r->Ok_0@.actions == views(listed->Ok_0@),
{
}

/// Hooks that are no table are refused, and so are those of a domain and of an event that cannot be
/// run.
pub proof fn wrong_hooks_are_refused(
    config: &ConfigValue,
    r: Result<(), Error>,
    domains: Seq<(Seq<char>, Tree)>,
    events: Seq<(Seq<char>, Tree)>,
    domain: Seq<char>,
    event: Seq<char>,
)
    requires
        call_ensures(validate_hook_config, (config,), r),
    ensures
        value_at(config@, "event.hooks"@) is None ==> r is Ok,
        value_at(config@, "event.hooks"@) is Some && !(value_at(
            config@,
            "event.hooks"@,
        )->0 is Table) ==> r is Err,
        value_at(config@, "event.hooks"@) == Some(Tree::Table(domains)) && lookup(domains, domain)
            is Some && !(lookup(domains, domain)->0 is Table) ==> r is Err,
        value_at(config@, "event.hooks"@) == Some(Tree::Table(domains)) && lookup(domains, domain)
            == Some(Tree::Table(events)) && lookup(events, event) is Some && !(lookup(
            events,
            event,
        )->0 is Text) && !(lookup(events, event)->0 is Array) ==> r is Err,
{
    if value_at(config@, "event.hooks"@) == Some(Tree::Table(domains)) && r is Ok {
        if lookup(domains, domain) is Some {
            right_domain(domains, domain);
            if lookup(domains, domain) == Some(Tree::Table(events)) && lookup(
                events,
                event,
            ) is Some {
                right_event(domain, events, event);
            }
        }
    }
}

/// A line of the log has the time and the whole message.
pub proof fn log_has_the_message(now_ms: u64, message: &str, r: String)
    requires
        call_ensures(log_line, (now_ms, message), r),
    ensures
        r@ == "["@ + decimal(now_ms as nat) + "] "@ + message@,
{
}

} // verus!
