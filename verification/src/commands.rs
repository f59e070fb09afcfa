//! What the commands on the configuration do.
use vstd::prelude::*;

use crate::cli::{option_view, ConfigCommand};
use crate::config::{
    apart, default_config, different_names_lie_apart, default_tree, empty_key_message, from_json,
    get_after_set, get_value_by_key, keeps, key_path, load_config, merge_config, merged_over,
    null_message, parse_set_value, save_config, set_leaves_the_rest, set_value_by_key, toml_as_json,
    toml_display, toml_parsed, toml_pretty, toml_problem, toml_refusal, unset_value_by_key,
    value_at, with_path, without_path, ConfigValue, Tree,
};
use crate::error::{fails_from, fails_with, Error};
use crate::fields::{lookup, lookups_after_put, put};
use crate::json::{json_parsed, json_pretty, json_problem, no_fields, Json, JsonTree};

verus! {

/// What a command on the configuration leads to: the text to write to the file first, where there
/// is one, and the text to print.
#[derive(Debug)]
pub struct ConfigOutcome {
    pub save: Option<String>,
    pub output: String,
}

/// Whether `r` saves and prints exactly this.
pub open spec fn leads_to(
    r: Result<ConfigOutcome, Error>,
    save: Option<Seq<char>>,
    output: Seq<char>,
) -> bool {
    match r {
        Ok(o) => option_view(o.save) == save && o.output@ == output,
        Err(_) => false,
    }
}

/// The configuration in a file with this text, where it can be read.
pub open spec fn loaded(text: Option<&str>) -> Option<Tree> {
    match text {
        None => Some(default_tree()),
        Some(text) => toml_parsed(text@),
    }
}

/// The report of a change.
pub open spec fn change_report(action: Seq<char>, key: Seq<char>, path: Seq<char>) -> JsonTree {
    JsonTree::Object(
        put(
            put(
                put(
                    put(no_fields(), "ok"@, JsonTree::Bool(true)),
                    "action"@,
                    JsonTree::Text(action),
                ),
                "key"@,
                JsonTree::Text(key),
            ),
            "path"@,
            JsonTree::Text(path),
        ),
    )
}

/// The configuration that is read from what was saved, where it can be read.
pub open spec fn saved(outcome: ConfigOutcome) -> Option<Tree> {
    match outcome.save {
        Some(text) => toml_parsed(text@),
        None => None,
    }
}

/// Whether `r` saves the changed configuration and reports the change. A plain configuration is
/// read back as it was saved.
pub open spec fn saves(
    r: Result<ConfigOutcome, Error>,
    changed: Tree,
    json_output: bool,
    action: Seq<char>,
    key: Seq<char>,
    path: Seq<char>,
    line: Seq<char>,
) -> bool {
    &&& match toml_pretty(changed) {
        None => fails_from(r, "failed serializing TOML config"@, toml_refusal(changed)),
        Some(text) => if json_output {
            leads_to(r, Some(text), json_pretty(change_report(action, key, path)))
        } else {
            leads_to(r, Some(text), line)
        },
    }
    &&& keeps(changed) ==> r is Ok && saved(r->Ok_0) == Some(changed)
}

/// Whether `r` is what a `set` of this value leads to.
pub open spec fn sets(
    r: Result<ConfigOutcome, Error>,
    config: Tree,
    key: Seq<char>,
    value: Tree,
    json_output: bool,
    path: Seq<char>,
) -> bool {
    if key_path(key).len() == 0 {
        fails_with(r, empty_key_message())
    } else {
        saves(
            r,
            with_path(config, key_path(key), value),
            json_output,
            "set"@,
            key,
            path,
            "updated "@ + key + " in "@ + path,
        )
    }
}

fn printed(save: Option<String>, output: String) -> (r: Result<ConfigOutcome, Error>)
    ensures
        leads_to(r, option_view(save), output@),
{
    Ok(ConfigOutcome { save, output })
}

fn report_change(
    config: &ConfigValue,
    json_output: bool,
    action: &str,
    key: &str,
    path: &str,
    line: String,
) -> (r: Result<ConfigOutcome, Error>)
    requires
        crate::config::well_formed(config@),
    ensures
        saves(r, config@, json_output, action@, key@, path@, line@),
{
    match save_config(config) {
        Err(e) => Err(e),
        Ok(text) => {
            if json_output {
                let report = Json::object().with("ok", Json::Bool(true)).with(
                    "action",
                    Json::text(action),
                ).with("key", Json::text(key)).with("path", Json::text(path));
                printed(Some(text), report.to_pretty())
            } else {
                printed(Some(text), line)
            }
        },
    }
}

/// Carries out a command on the configuration, which lies at `path` in a file with this text, or
/// in none.
pub fn handle_config_command(
    command: &ConfigCommand,
    json_output: bool,
    path: &str,
    text: Option<&str>,
) -> (r: Result<ConfigOutcome, Error>)
    ensures
        match command {
            ConfigCommand::Path => if json_output {
                leads_to(
                    r,
                    None,
                    json_pretty(JsonTree::Object(put(no_fields(), "path"@, JsonTree::Text(path@)))),
                )
            } else {
                leads_to(r, None, path@)
            },
            _ => match loaded(text) {
                None => fails_from(
                    r,
                    "failed parsing TOML config: "@ + path@,
                    toml_problem(text->0@),
                ),
                Some(config) => match command {
                    ConfigCommand::Path => true,
                    ConfigCommand::Show => {
                        let shown = merged_over(default_tree(), config);
                        if json_output {
                            leads_to(r, None, toml_as_json(shown))
                        } else {
                            match toml_pretty(shown) {
                                Some(text) => leads_to(r, None, text),
                                None => fails_with(r, toml_refusal(shown)),
                            }
                        }
                    },
                    ConfigCommand::Get { key } => match value_at(config, key@) {
                        None => fails_with(r, "config key not found: "@ + key@),
                        Some(v) => if json_output {
                            leads_to(r, None, toml_as_json(v))
                        } else {
                            leads_to(
                                r,
                                None,
                                match v {
                                    Tree::Text(s) => s,
                                    _ => toml_display(v),
                                },
                            )
                        },
                    },
                    ConfigCommand::SetValue { key, value, json_value } => if !*json_value {
                        sets(r, config, key@, Tree::Text(value@), json_output, path@)
                    } else {
                        match json_parsed(value@) {
                            None => fails_from(
                                r,
                                "invalid JSON for --json-value: "@ + value@,
                                json_problem(value@),
                            ),
                            Some(t) => match from_json(t) {
                                Some(v) => sets(r, config, key@, v, json_output, path@),
                                None => fails_with(r, null_message()),
                            },
                        }
                    },
                    ConfigCommand::Unset { key } => if key_path(key@).len() == 0 {
                        fails_with(r, empty_key_message())
                    } else if value_at(config, key@) is None {
                        fails_with(r, "config key not found: "@ + key@)
                    } else {
                        saves(
                            r,
                            without_path(config, key_path(key@)),
                            json_output,
                            "unset"@,
                            key@,
                            path@,
                            "removed "@ + key@ + " from "@ + path@,
                        )
                    },
                },
            },
        },
{
    if let ConfigCommand::Path = command {
        if json_output {
            let shown = Json::object().with("path", Json::text(path));
            return printed(None, shown.to_pretty());
        }
        return printed(None, path.to_string());
    }
    let mut config = match load_config(path, text) {
        Ok(config) => config,
        Err(e) => {
            return Err(e);
        },
    };
    match command {
        ConfigCommand::Path => printed(None, path.to_string()),
        ConfigCommand::Show => {
            let shown = merge_config(default_config(), config);
            if json_output {
                printed(None, shown.to_json())
            } else {
                match save_config(&shown) {
                    Ok(text) => printed(None, text),
                    Err(e) => match e.cause {
                        Some(problem) => Err(Error { message: problem, cause: None }),
                        None => Err(e),
                    },
                }
            }
        },
        ConfigCommand::Get { key } => {
            match get_value_by_key(&config, key.as_str()) {
                None => {
                    let mut message = "config key not found: ".to_string();
                    message.append(key.as_str());
                    Err(Error { message, cause: None })
                },
                Some(v) => {
                    proof {
                        crate::config::value_at_is_well_formed(config@, key@);
                    }
                    if json_output {
                        printed(None, v.to_json())
                    } else {
                        match v {
                            ConfigValue::String(s) => printed(None, s.clone()),
                            _ => printed(None, v.show()),
                        }
                    }
                },
            }
        },
        ConfigCommand::SetValue { key, value, json_value } => {
            match parse_set_value(value.as_str(), *json_value) {
                Err(e) => Err(e),
                Ok(parsed) => {
                    match set_value_by_key(&mut config, key.as_str(), parsed) {
                        Err(e) => Err(e),
                        Ok(_) => {
                            let mut line = "updated ".to_string();
                            line.append(key.as_str());
                            line.append(" in ");
                            line.append(path);
                            report_change(&config, json_output, "set", key.as_str(), path, line)
                        },
                    }
                },
            }
        },
        ConfigCommand::Unset { key } => {
            match unset_value_by_key(&mut config, key.as_str()) {
                Err(e) => Err(e),
                Ok(removed) => {
                    if !removed {
                        let mut message = "config key not found: ".to_string();
                        message.append(key.as_str());
                        return Err(Error { message, cause: None });
                    }
                    let mut line = "removed ".to_string();
                    line.append(key.as_str());
                    line.append(" from ");
                    line.append(path);
                    report_change(&config, json_output, "unset", key.as_str(), path, line)
                },
            }
        },
    }
}

/// What was set by `config set` is what `config get` finds, in the configuration that is read from
/// what was saved; what lies apart from it is as it was.
pub proof fn get_after_config_set(
    r: Result<ConfigOutcome, Error>,
    config: Tree,
    key: Seq<char>,
    value: Tree,
    json_output: bool,
    path: Seq<char>,
    other: Seq<char>,
)
    requires
        sets(r, config, key, value, json_output, path),
        key_path(key).len() > 0,
        keeps(with_path(config, key_path(key), value)),
    ensures
        r is Ok,
        saved(r->Ok_0) is Some,
        value_at(saved(r->Ok_0)->0, key) == Some(value),
        apart(key_path(key), key_path(other)) ==> value_at(saved(r->Ok_0)->0, other) == value_at(
            config,
            other,
        ),
{
    get_after_set(config, key_path(key), value);
    if apart(key_path(key), key_path(other)) {
        set_leaves_the_rest(config, key_path(key), value, key_path(other));
    }
}

/// `config get` prints a text exactly as it stands in the file, and says so where there is none
/// under the key; it saves nothing.
pub proof fn get_prints_the_text(
    command: &ConfigCommand,
    path: &str,
    text: Option<&str>,
    r: Result<ConfigOutcome, Error>,
    key: String,
    config: Tree,
    value: Seq<char>,
)
    requires
        call_ensures(handle_config_command, (command, false, path, text), r),
        *command == (ConfigCommand::Get { key }),
        text is Some,
        toml_parsed(text->0@) == Some(config),
    ensures
        value_at(config, key@) == Some(Tree::Text(value)) ==> r is Ok && r->Ok_0.output@ == value
            && r->Ok_0.save is None,
        value_at(config, key@) is None ==> r is Err && r->Err_0.message@
            == "config key not found: "@ + key@,
{
}

/// What `config set` wrote as a text is, to the character, what `config get` prints from the file
/// that was saved, for every key and every text; and a key whose names are others leads to what it
/// led to before.
pub proof fn get_prints_what_was_set(
    setting: &ConfigCommand,
    json_output: bool,
    path: &str,
    text: Option<&str>,
    set: Result<ConfigOutcome, Error>,
    key: String,
    value: String,
    config: Tree,
    getting: &ConfigCommand,
    saved_text: &str,
    got: Result<ConfigOutcome, Error>,
    other: Seq<char>,
    i: int,
)
    requires
        call_ensures(handle_config_command, (setting, json_output, path, text), set),
        *setting == (ConfigCommand::SetValue { key, value, json_value: false }),
        text is Some,
        toml_parsed(text->0@) == Some(config),
        key_path(key@).len() > 0,
        keeps(with_path(config, key_path(key@), Tree::Text(value@))),
        set is Ok && set->Ok_0.save is Some ==> saved_text@ == set->Ok_0.save->0@,
        call_ensures(handle_config_command, (getting, false, path, Some(saved_text)), got),
        *getting == (ConfigCommand::Get { key }),
        0 <= i < key_path(key@).len(),
        i < key_path(other).len(),
        key_path(key@)[i] != key_path(other)[i],
    ensures
        set is Ok,
        set->Ok_0.save is Some,
        got is Ok,
        got->Ok_0.output@ == value@,
        toml_parsed(saved_text@) is Some,
        value_at(toml_parsed(saved_text@)->0, other) == value_at(config, other),
        !json_output ==> set->Ok_0.output@ == "updated "@ + key@ + " in "@ + path@,
{
    different_names_lie_apart(key_path(key@), key_path(other), i);
    get_after_set(config, key_path(key@), Tree::Text(value@));
    set_leaves_the_rest(config, key_path(key@), Tree::Text(value@), key_path(other));
}

/// What `config unset` removed is not found any more in the file that was saved; a key that leads
/// nowhere cannot be removed.
pub proof fn unset_value_is_not_found(
    removing: &ConfigCommand,
    json_output: bool,
    path: &str,
    text: Option<&str>,
    unset: Result<ConfigOutcome, Error>,
    key: String,
    config: Tree,
    getting: &ConfigCommand,
    saved_text: &str,
    got: Result<ConfigOutcome, Error>,
)
    requires
        call_ensures(handle_config_command, (removing, json_output, path, text), unset),
        *removing == (ConfigCommand::Unset { key }),
        text is Some,
        toml_parsed(text->0@) == Some(config),
        crate::config::well_formed(config),
        keeps(without_path(config, key_path(key@))),
        unset is Ok && unset->Ok_0.save is Some ==> saved_text@ == unset->Ok_0.save->0@,
        call_ensures(handle_config_command, (getting, false, path, Some(saved_text)), got),
        *getting == (ConfigCommand::Get { key }),
    ensures
        value_at(config, key@) is Some ==> unset is Ok && unset->Ok_0.save is Some && got is Err
            && got->Err_0.message@ == "config key not found: "@ + key@,
        value_at(config, key@) is None ==> unset is Err,
{
    if value_at(config, key@) is Some {
        crate::config::get_after_unset(config, key_path(key@));
    }
}

/// `config show` prints a configuration in which every value of the file, other than a table, is as
/// in the file; from an empty file it is the default one. It saves nothing.
pub proof fn show_prints_the_whole(
    command: &ConfigCommand,
    path: &str,
    text: Option<&str>,
    r: Result<ConfigOutcome, Error>,
    config: Tree,
    key: Seq<char>,
) -> (shown: Tree)
    requires
        call_ensures(handle_config_command, (command, false, path, text), r),
        command is Show,
        text is Some,
        toml_parsed(text->0@) == Some(config),
        crate::config::well_formed(config),
    ensures
        toml_pretty(shown) is Some ==> r is Ok && r->Ok_0.output@ == toml_pretty(shown)->0
            && r->Ok_0.save is None,
        value_at(config, key) is Some && !(value_at(config, key)->0 is Table) ==> value_at(
            shown,
            key,
        ) == value_at(config, key),
        config == Tree::Table(Seq::empty()) ==> shown == default_tree(),
{
    let shown = merged_over(default_tree(), config);
    if value_at(config, key) is Some && !(value_at(config, key)->0 is Table) {
        crate::config::merged_keeps_the_values(default_tree(), config, key_path(key));
    }
    shown
}

/// `config path` prints the path, whatever the file holds, and saves nothing.
pub proof fn path_is_printed(
    command: &ConfigCommand,
    path: &str,
    text: Option<&str>,
    r: Result<ConfigOutcome, Error>,
)
    requires
        call_ensures(handle_config_command, (command, false, path, text), r),
        command is Path,
    ensures
        r is Ok,
        r->Ok_0.output@ == path@,
        r->Ok_0.save is None,
{
}

/// No command but those that change the configuration saves anything, and none does where the file
/// cannot be read.
pub proof fn only_changes_are_saved(
    command: &ConfigCommand,
    json_output: bool,
    path: &str,
    text: Option<&str>,
    r: Result<ConfigOutcome, Error>,
)
    requires
        call_ensures(handle_config_command, (command, json_output, path, text), r),
    ensures
        r is Ok && r->Ok_0.save is Some ==> command is SetValue || command is Unset,
        text is Some && toml_parsed(text->0@) is None && !(command is Path) ==> r is Err,
{
}

/// As JSON, `config get` prints the value under the key, and `config show` the whole configuration
/// in which every value of the file, other than a table, is as in the file.
pub proof fn values_are_printed_as_json(
    getting: &ConfigCommand,
    showing: &ConfigCommand,
    path: &str,
    text: Option<&str>,
    got: Result<ConfigOutcome, Error>,
    all: Result<ConfigOutcome, Error>,
    key: String,
    config: Tree,
) -> (shown: Tree)
    requires
        call_ensures(handle_config_command, (getting, true, path, text), got),
        call_ensures(handle_config_command, (showing, true, path, text), all),
        *getting == (ConfigCommand::Get { key }),
        showing is Show,
        text is Some,
        toml_parsed(text->0@) == Some(config),
        crate::config::well_formed(config),
    ensures
        value_at(config, key@) is Some ==> got is Ok && got->Ok_0.output@ == toml_as_json(
            value_at(config, key@)->0,
        ),
        all is Ok,
        all->Ok_0.output@ == toml_as_json(shown),
        value_at(config, key@) is Some && !(value_at(config, key@)->0 is Table) ==> value_at(
            shown,
            key@,
        ) == value_at(config, key@),
{
    let shown = merged_over(default_tree(), config);
    if value_at(config, key@) is Some && !(value_at(config, key@)->0 is Table) {
        crate::config::merged_keeps_the_values(default_tree(), config, key_path(key@));
    }
    shown
}

/// What `config set` is given as JSON is what is under the key in the file that was saved.
pub proof fn set_json_is_read_back(
    setting: &ConfigCommand,
    json_output: bool,
    path: &str,
    text: Option<&str>,
    set: Result<ConfigOutcome, Error>,
    key: String,
    value: String,
    config: Tree,
    raw: &str,
    parsed: Result<ConfigValue, Error>,
)
    requires
        call_ensures(handle_config_command, (setting, json_output, path, text), set),
        *setting == (ConfigCommand::SetValue { key, value, json_value: true }),
        raw@ == value@,
        call_ensures(parse_set_value, (raw, true), parsed),
        text is Some,
        toml_parsed(text->0@) == Some(config),
        key_path(key@).len() > 0,
        parsed is Ok ==> keeps(with_path(config, key_path(key@), parsed->Ok_0@)),
    ensures
        parsed is Ok ==> {
            &&& set is Ok
            &&& set->Ok_0.save is Some
            &&& toml_parsed(set->Ok_0.save->0@) is Some
            &&& value_at(toml_parsed(set->Ok_0.save->0@)->0, key@) == Some(parsed->Ok_0@)
        },
        parsed is Err ==> set is Err,
{
    if parsed is Ok {
        get_after_set(config, key_path(key@), parsed->Ok_0@);
    }
}

/// The report of a change as JSON has the change, the key and the path.
pub proof fn changes_are_reported(
    command: &ConfigCommand,
    path: &str,
    text: Option<&str>,
    r: Result<ConfigOutcome, Error>,
    key: String,
    value: String,
) -> (fields: Seq<(Seq<char>, JsonTree)>)
    requires
        call_ensures(handle_config_command, (command, true, path, text), r),
        ({
            ||| *command == (ConfigCommand::SetValue { key, value, json_value: false })
            ||| *command == (ConfigCommand::Unset { key })
        }),
        r is Ok,
    ensures
        r->Ok_0.save is Some,
        r->Ok_0.output@ == json_pretty(JsonTree::Object(fields)),
        lookup(fields, "ok"@) == Some(JsonTree::Bool(true)),
        lookup(fields, "action"@) == Some(
            JsonTree::Text(
                if command is Unset {
                    "unset"@
                } else {
                    "set"@
                },
            ),
        ),
        lookup(fields, "key"@) == Some(JsonTree::Text(key@)),
        lookup(fields, "path"@) == Some(JsonTree::Text(path@)),
{
    reveal_strlit("ok");
    reveal_strlit("action");
    reveal_strlit("key");
    reveal_strlit("path");
    assert("ok"@.len() == 2 && "action"@.len() == 6 && "key"@.len() == 3 && "path"@.len() == 4);
    let action = JsonTree::Text(
        if command is Unset {
            "unset"@
        } else {
            "set"@
        },
    );
    let a = put(no_fields(), "ok"@, JsonTree::Bool(true));
    let b = put(a, "action"@, action);
    let c = put(b, "key"@, JsonTree::Text(key@));
    lookups_after_put(no_fields(), "ok"@, JsonTree::Bool(true));
    lookups_after_put(a, "action"@, action);
    lookups_after_put(b, "key"@, JsonTree::Text(key@));
    lookups_after_put(c, "path"@, JsonTree::Text(path@));
    put(c, "path"@, JsonTree::Text(path@))
}

} // verus!
