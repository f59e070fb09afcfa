//! Input devices: which there are, which one is configured, and how another one is chosen.
use vstd::prelude::*;

use crate::cli::option_view;
use crate::config::{
    get_after_set, get_value_by_key, key_path, key_with_a_name, set_value_by_key, value_at,
    well_formed, with_path, ConfigValue, Tree,
};
use crate::error::{fails_from, fails_with, Error};
use crate::text::{
    all_digits, decimal, decimal_text, digits_value_grows, ink_is_unique, is_ink_of, join, joined,
    number_is_parsed, number_problem, parse_unsigned, parsed_unsigned, same, str_view,
    tight_text_stays, trim, trimmed, unsigned_digits, views,
};

verus! {

/// An input device.
#[derive(Debug)]
pub struct InputDeviceEntry {
    pub id: String,
    pub name: String,
    pub is_default: bool,
    pub is_selected: bool,
}

/// The answer to `input list`.
#[derive(Debug)]
pub struct InputListResponse {
    pub ok: bool,
    pub configured_device: String,
    pub configured_device_available: bool,
    pub devices: Vec<InputDeviceEntry>,
}

/// The answer to `input show`.
#[derive(Debug)]
pub struct InputShowResponse {
    pub ok: bool,
    pub configured_device: String,
    pub configured_device_available: bool,
    pub active_device: Option<String>,
    pub active_id: Option<String>,
    pub active_is_default: bool,
    pub default_device: Option<String>,
}

/// The answer to `input set`.
#[derive(Debug)]
pub struct InputSetResponse {
    pub ok: bool,
    pub id: Option<String>,
    pub name: Option<String>,
    pub device: String,
    pub key: String,
    pub path: String,
    pub daemon_reloaded: bool,
    pub message: String,
}

/// The device that a configuration names: none where it names `default` or nothing.
pub open spec fn configured_device(t: Tree) -> Option<Seq<char>> {
    match value_at(t, "audio.device"@) {
        Some(Tree::Text(s)) => if trimmed(s).len() == 0 || trimmed(s) == "default"@ {
            None
        } else {
            Some(trimmed(s))
        },
        _ => None,
    }
}

/// The device that the configuration names: none where it names `default` or nothing.
pub fn configured_device_name(config: &ConfigValue) -> (r: Option<String>)
    ensures
        option_view(r) == configured_device(config@),
{
    match get_value_by_key(config, "audio.device") {
        Some(v) => match v.as_str() {
            Some(s) => {
                let name = trim(s);
                if name.is_empty() || same(name, "default") {
                    None
                } else {
                    Some(name.to_string())
                }
            },
            None => None,
        },
        None => None,
    }
}

// ---------------------------------------------------------------------------------------------
// Which devices there are
// ---------------------------------------------------------------------------------------------

/// The name to show of a device.
pub open spec fn shown_name(name: Option<String>) -> Seq<char> {
    match name {
        Some(name) => name@,
        None => "<unknown>"@,
    }
}

/// Whether an optional text is this text.
pub open spec fn is_text(s: Option<&str>, t: Seq<char>) -> bool {
    match s {
        Some(s) => s@ == t,
        None => false,
    }
}

/// Whether `e` is the entry of the device at `i`.
pub open spec fn is_entry(
    e: InputDeviceEntry,
    names: Seq<Option<String>>,
    i: int,
    default_name: Option<&str>,
    configured: Option<&str>,
) -> bool {
    &&& e.id@ == decimal(i as nat)
    &&& e.name@ == shown_name(names[i])
    &&& e.is_default == is_text(default_name, shown_name(names[i]))
    &&& e.is_selected == match configured {
        Some(name) => name@ == shown_name(names[i]),
        None => e.is_default,
    }
}

/// Whether every device has its entry.
pub open spec fn are_all_entries(
    devices: Seq<InputDeviceEntry>,
    names: Seq<Option<String>>,
    default_name: Option<&str>,
    configured: Option<&str>,
) -> bool {
    forall|i: int|
        0 <= i < devices.len() ==> is_entry(
            #[trigger] devices[i],
            names,
            i,
            default_name,
            configured,
        )
}

/// Whether a device has this name.
pub open spec fn some_named(devices: Seq<InputDeviceEntry>, name: Seq<char>) -> bool {
    exists|i: int| 0 <= i < devices.len() && (#[trigger] devices[i]).name@ == name
}

fn equals(s: Option<&str>, t: &str) -> (r: bool)
    ensures
        r == is_text(s, t@),
{
    match s {
        Some(s) => same(s, t),
        None => false,
    }
}

fn find_named(devices: &Vec<InputDeviceEntry>, name: &str) -> (r: Option<usize>)
    ensures
        match r {
            Some(i) => i < devices@.len() && devices@[i as int].name@ == name@ && forall|n: int|
                0 <= n < i ==> (#[trigger] devices@[n]).name@ != name@,
            None => !some_named(devices@, name@),
        },
{
    let mut i: usize = 0;
    while i < devices.len()
        invariant
            i <= devices@.len(),
            forall|n: int| 0 <= n < i ==> (#[trigger] devices@[n]).name@ != name@,
        decreases devices@.len() - i,
    {
        if same(devices[i].name.as_str(), name) {
            return Some(i);
        }
        i = i + 1;
    }
    None
}

fn find_default(devices: &Vec<InputDeviceEntry>) -> (r: Option<usize>)
    ensures
        match r {
            Some(i) => i < devices@.len() && devices@[i as int].is_default && forall|n: int|
                0 <= n < i ==> !(#[trigger] devices@[n]).is_default,
            None => forall|n: int| 0 <= n < devices@.len() ==> !(#[trigger] devices@[n]).is_default,
        },
{
    let mut i: usize = 0;
    while i < devices.len()
        invariant
            i <= devices@.len(),
            forall|n: int| 0 <= n < i ==> !(#[trigger] devices@[n]).is_default,
        decreases devices@.len() - i,
    {
        if devices[i].is_default {
            return Some(i);
        }
        i = i + 1;
    }
    None
}

/// The entries of the devices, which are given by their names where they could be had, and
/// whether the configured device is among them.
pub fn enumerate_input_devices(
    names: &Vec<Option<String>>,
    default_name: Option<&str>,
    configured: Option<&str>,
) -> (r: Result<(Vec<InputDeviceEntry>, bool), Error>)
    ensures
        match r {
            Ok((devices, available)) => names@.len() > 0 && devices@.len() == names@.len()
                && available == (configured is None || some_named(devices@, configured->0@))
                && are_all_entries(devices@, names@, default_name, configured),
            Err(_) => names@.len() == 0 && fails_with(r, "no input audio devices available"@),
        },
{
    let mut devices: Vec<InputDeviceEntry> = Vec::new();
    let mut i: usize = 0;
    while i < names.len()
        invariant
            i <= names@.len(),
            devices@.len() == i,
            forall|n: int|
                0 <= n < i ==> is_entry(#[trigger] devices@[n], names@, n, default_name, configured),
        decreases names@.len() - i,
    {
        let name = match &names[i] {
            Some(name) => name.clone(),
            None => "<unknown>".to_string(),
        };
        let is_default = equals(default_name, name.as_str());
        let is_selected = match configured {
            Some(wanted) => same(wanted, name.as_str()),
            None => is_default,
        };
        devices.push(
            InputDeviceEntry { id: decimal_text(i as u64), name, is_default, is_selected },
        );
        i = i + 1;
    }
    if devices.len() == 0 {
        return Err(Error::new("no input audio devices available"));
    }
    let available = match configured {
        Some(wanted) => find_named(&devices, wanted).is_some(),
        None => true,
    };
    Ok((devices, available))
}

/// Whether the device at `i` is the active one: the first with the configured name, or the first
/// default one where none is configured.
pub open spec fn is_active(
    devices: Seq<InputDeviceEntry>,
    configured: Option<Seq<char>>,
    i: int,
) -> bool {
    match configured {
        Some(name) => devices[i].name@ == name,
        None => devices[i].is_default,
    }
}

/// Where the active device stands: the first with the configured name, or the first default one
/// where none is configured.
pub fn active_position(devices: &Vec<InputDeviceEntry>, configured: Option<&str>) -> (r: Option<
    usize,
>)
    ensures
        match r {
            Some(i) => i < devices@.len() && is_active(devices@, str_view(configured), i as int)
                && forall|n: int| 0 <= n < i ==> !#[trigger] is_active(devices@, str_view(configured), n),
            None => forall|n: int|
                0 <= n < devices@.len() ==> !#[trigger] is_active(devices@, str_view(configured), n),
        },
{
    match configured {
        Some(name) => {
            let r = find_named(devices, name);
            assert(forall|n: int|
                0 <= n < devices@.len() ==> #[trigger] is_active(devices@, str_view(configured), n) == (
                devices@[n].name@ == name@));
            r
        },
        None => {
            let r = find_default(devices);
            assert(forall|n: int|
                0 <= n < devices@.len() ==> #[trigger] is_active(devices@, str_view(configured), n)
                    == devices@[n].is_default);
            r
        },
    }
}

/// The active device.
pub fn resolve_active_device<'a>(
    devices: &'a Vec<InputDeviceEntry>,
    configured: Option<&str>,
) -> (r: Option<&'a InputDeviceEntry>)
    ensures
        match r {
            Some(d) => exists|i: int|
                0 <= i < devices@.len() && *d == devices@[i] && #[trigger] is_active(
                    devices@,
                    str_view(configured),
                    i,
                ) && forall|n: int| 0 <= n < i ==> !#[trigger] is_active(devices@, str_view(configured), n),
            None => forall|n: int|
                0 <= n < devices@.len() ==> !#[trigger] is_active(devices@, str_view(configured), n),
        },
{
    match active_position(devices, configured) {
        Some(i) => Some(&devices[i]),
        None => None,
    }
}

/// The names of the devices.
pub open spec fn names_of(devices: Seq<InputDeviceEntry>) -> Seq<Seq<char>> {
    Seq::new(devices.len(), |i: int| devices[i].name@)
}

/// The identifiers of the devices.
pub open spec fn ids_of(devices: Seq<InputDeviceEntry>) -> Seq<Seq<char>> {
    Seq::new(devices.len(), |i: int| devices[i].id@)
}

/// The name of the device with exactly this name.
pub fn resolve_device_name_by_name(devices: &Vec<InputDeviceEntry>, name: &str) -> (r: Result<
    String,
    Error,
>)
    ensures
        if some_named(devices@, name@) {
            r is Ok && r->Ok_0@ == name@
        } else {
            fails_with(
                r,
                "input device '"@ + name@ + "' not found (available devices: "@ + joined(
                    names_of(devices@),
                    ", "@,
                ) + ")"@,
            )
        },
{
    match find_named(devices, name) {
        Some(i) => Ok(devices[i].name.clone()),
        None => {
            let mut available: Vec<String> = Vec::new();
            let mut i: usize = 0;
            while i < devices.len()
                invariant
                    i <= devices@.len(),
                    available@.len() == i,
                    forall|n: int| 0 <= n < i ==> (#[trigger] available@[n])@ == devices@[n].name@,
                decreases devices@.len() - i,
            {
                available.push(devices[i].name.clone());
                i = i + 1;
            }
            assert(views(available@) =~= names_of(devices@));
            let mut message = "input device '".to_string();
            message.append(name);
            message.append("' not found (available devices: ");
            message.append(join(&available, ", ").as_str());
            message.append(")");
            Err(Error { message, cause: None })
        },
    }
}

/// The name of the device with this number in the list.
pub fn resolve_device_name_by_id(devices: &Vec<InputDeviceEntry>, id: &str) -> (r: Result<
    String,
    Error,
>)
    ensures
        match parsed_unsigned(id@, usize::MAX as int) {
            None => fails_from(
                r,
                "invalid input device id: "@ + id@,
                number_problem(id@, usize::MAX as int),
            ),
            Some(n) => if n < devices@.len() {
                r is Ok && r->Ok_0@ == devices@[n].name@
            } else {
                fails_with(
                    r,
                    "input device id "@ + decimal(n as nat) + " not found (available ids: "@
                        + joined(ids_of(devices@), ", "@) + ")"@,
                )
            },
        },
{
    match parse_unsigned(id, usize::MAX as u64) {
        Err(problem) => {
            let mut message = "invalid input device id: ".to_string();
            message.append(id);
            Err(Error { message, cause: Some(problem) })
        },
        Ok(number) => {
            let parsed: usize = number as usize;
            if parsed < devices.len() {
                return Ok(devices[parsed].name.clone());
            }
            let mut available: Vec<String> = Vec::new();
            let mut i: usize = 0;
            while i < devices.len()
                invariant
                    i <= devices@.len(),
                    available@.len() == i,
                    forall|n: int| 0 <= n < i ==> (#[trigger] available@[n])@ == devices@[n].id@,
                decreases devices@.len() - i,
            {
                available.push(devices[i].id.clone());
                i = i + 1;
            }
            assert(views(available@) =~= ids_of(devices@));
            let mut message = "input device id ".to_string();
            message.append(decimal_text(number).as_str());
            message.append(" not found (available ids: ");
            message.append(join(&available, ", ").as_str());
            message.append(")");
            Err(Error { message, cause: None })
        },
    }
}

// ---------------------------------------------------------------------------------------------
// The commands
// ---------------------------------------------------------------------------------------------

/// The line of a device in the list.
pub open spec fn device_line(d: InputDeviceEntry) -> Seq<char> {
    let base = "  ["@ + d.id@ + "] "@ + d.name@;
    if d.is_selected && d.is_default {
        base + " (selected, default)"@
    } else if d.is_selected {
        base + " (selected)"@
    } else if d.is_default {
        base + " (default)"@
    } else {
        base
    }
}

/// The lines of the devices in the list.
pub open spec fn device_lines(devices: Seq<InputDeviceEntry>) -> Seq<Seq<char>> {
    Seq::new(devices.len(), |i: int| device_line(devices[i]))
}

/// The lines that `input list` prints.
pub open spec fn list_lines(
    configured: Option<Seq<char>>,
    available: bool,
    devices: Seq<InputDeviceEntry>,
) -> Seq<Seq<char>> {
    let first = seq![
        "configured input: "@ + match configured {
            Some(name) => name,
            None => "default (system default input device)"@,
        },
    ];
    let warned = if configured is Some && !available {
        first.push("warning: configured input device is not currently available"@)
    } else {
        first
    };
    warned.push("available input devices:"@) + device_lines(devices)
}

fn device_text(d: &InputDeviceEntry) -> (r: String)
    ensures
        r@ == device_line(*d),
{
    let mut line = "  [".to_string();
    line.append(d.id.as_str());
    line.append("] ");
    line.append(d.name.as_str());
    if d.is_selected && d.is_default {
        line.append(" (selected, default)");
    } else if d.is_selected {
        line.append(" (selected)");
    } else if d.is_default {
        line.append(" (default)");
    }
    line
}

fn as_text(s: &Option<String>) -> (r: Option<&str>)
    ensures
        match r {
            Some(t) => option_view(*s) == Some(t@),
            None => s is None,
        },
{
    match s {
        Some(s) => Some(s.as_str()),
        None => None,
    }
}

/// The name of the configured device as answers give it.
pub open spec fn configured_or_default(configured: Option<Seq<char>>) -> Seq<char> {
    match configured {
        Some(name) => name,
        None => "default"@,
    }
}

fn or_default(configured: &Option<String>) -> (r: String)
    ensures
        r@ == configured_or_default(option_view(*configured)),
{
    match configured {
        Some(name) => name.clone(),
        None => "default".to_string(),
    }
}

/// Whether `devices` are the entries of the devices with these names under this configuration.
pub open spec fn are_entries(
    devices: Seq<InputDeviceEntry>,
    names: Seq<Option<String>>,
    default_name: Option<&str>,
    configured: Option<Seq<char>>,
) -> bool {
    &&& devices.len() == names.len()
    &&& forall|i: int|
        0 <= i < devices.len() ==> {
            let e = #[trigger] devices[i];
            &&& e.id@ == decimal(i as nat)
            &&& e.name@ == shown_name(names[i])
            &&& e.is_default == is_text(default_name, shown_name(names[i]))
            &&& e.is_selected == match configured {
                Some(name) => name == shown_name(names[i]),
                None => e.is_default,
            }
        }
}

/// Whether the configured device is among these.
pub open spec fn is_available(devices: Seq<InputDeviceEntry>, configured: Option<Seq<char>>) -> bool {
    configured is None || some_named(devices, configured->0)
}

/// Answers `input list`: the answer itself, and the lines that show it.
pub fn list(config: &ConfigValue, names: &Vec<Option<String>>, default_name: Option<&str>) -> (r:
    Result<(InputListResponse, Vec<String>), Error>)
    ensures
        match r {
            Ok((response, lines)) => {
                let configured = configured_device(config@);
                &&& names@.len() > 0
                &&& response.ok
                &&& response.configured_device@ == configured_or_default(configured)
                &&& are_entries(response.devices@, names@, default_name, configured)
                &&& response.configured_device_available == is_available(
                    response.devices@,
                    configured,
                )
                &&& views(lines@) == list_lines(
                    configured,
                    response.configured_device_available,
                    response.devices@,
                )
            },
            Err(_) => names@.len() == 0 && fails_with(r, "no input audio devices available"@),
        },
{
    let configured = configured_device_name(config);
    let (devices, available) = match enumerate_input_devices(
        names,
        default_name,
        as_text(&configured),
    ) {
        Ok(found) => found,
        Err(e) => {
            return Err(e);
        },
    };
    let mut lines: Vec<String> = Vec::new();
    let mut first = "configured input: ".to_string();
    match &configured {
        Some(name) => {
            first.append(name.as_str());
        },
        None => {
            first.append("default (system default input device)");
        },
    }
    lines.push(first);
    if configured.is_some() && !available {
        lines.push("warning: configured input device is not currently available".to_string());
    }
    lines.push("available input devices:".to_string());
    let ghost head = views(lines@);
    let mut i: usize = 0;
    assert(device_lines(devices@).take(0) =~= Seq::empty());
    assert(views(lines@) =~= head + device_lines(devices@).take(0));
    while i < devices.len()
        invariant
            i <= devices@.len(),
            views(lines@) == head + device_lines(devices@).take(i as int),
        decreases devices@.len() - i,
    {
        let ghost before = views(lines@);
        let line = device_text(&devices[i]);
        lines.push(line);
        assert(views(lines@) =~= before.push(line@));
        assert(device_lines(devices@).take(i + 1) =~= device_lines(devices@).take(i as int).push(
            line@,
        ));
        assert(before.push(line@) =~= head + device_lines(devices@).take(i + 1));
        i = i + 1;
    }
    assert(device_lines(devices@).take(i as int) =~= device_lines(devices@));
    assert(views(lines@) =~= list_lines(option_view(configured), available, devices@));
    let configured_device = or_default(&configured);
    Ok(
        (
            InputListResponse {
                ok: true,
                configured_device,
                configured_device_available: available,
                devices,
            },
            lines,
        ),
    )
}

/// The lines that `input show` prints.
pub open spec fn show_lines(response: InputShowResponse) -> Seq<Seq<char>> {
    let first = seq![
        "configured input: "@ + response.configured_device@,
        "configured available: "@ + if response.configured_device_available {
            "yes"@
        } else {
            "no"@
        },
    ];
    let second = match response.active_device {
        Some(name) => {
            let base = "active input: "@ + name@ + " ["@ + response.active_id->0@ + "]"@;
            if response.active_is_default {
                first.push(base + " (default)"@)
            } else {
                first.push(base)
            }
        },
        None => first.push("active input: unavailable"@).push(
            "hint: run `omni input list` then `omni input set <id>`"@,
        ),
    };
    match response.default_device {
        Some(name) => second.push("default input: "@ + name@),
        None => second,
    }
}

/// Whether this is the active device in the answer to `input show`.
pub open spec fn shows_active(
    response: InputShowResponse,
    devices: Seq<InputDeviceEntry>,
    configured: Option<Seq<char>>,
) -> bool {
    match response.active_device {
        Some(name) => exists|i: int|
            0 <= i < devices.len() && #[trigger] is_active(devices, configured, i)
                && devices[i].name@ == name@ && response.active_id is Some
                && response.active_id->0@ == devices[i].id@ && response.active_is_default
                == devices[i].is_default && forall|n: int|
                0 <= n < i ==> !#[trigger] is_active(devices, configured, n),
        None => response.active_id is None && !response.active_is_default && forall|n: int|
            0 <= n < devices.len() ==> !#[trigger] is_active(devices, configured, n),
    }
}

/// Whether this is the default device in the answer to `input show`.
pub open spec fn shows_default(
    response: InputShowResponse,
    devices: Seq<InputDeviceEntry>,
) -> bool {
    match response.default_device {
        Some(name) => exists|i: int|
            0 <= i < devices.len() && (#[trigger] devices[i]).is_default && devices[i].name@
                == name@,
        None => forall|n: int| 0 <= n < devices.len() ==> !(#[trigger] devices[n]).is_default,
    }
}

/// Answers `input show`: the answer itself, and the lines that show it.
pub fn show(config: &ConfigValue, names: &Vec<Option<String>>, default_name: Option<&str>) -> (r:
    Result<(InputShowResponse, Vec<String>), Error>)
    ensures
        match r {
            Ok((response, lines)) => {
                let configured = configured_device(config@);
                &&& names@.len() > 0
                &&& response.ok
                &&& response.configured_device@ == configured_or_default(configured)
                &&& exists|devices: Seq<InputDeviceEntry>| #[trigger]
                    are_entries(devices, names@, default_name, configured)
                        && response.configured_device_available == is_available(devices, configured)
                        && shows_active(response, devices, configured) && shows_default(
                        response,
                        devices,
                    )
                &&& views(lines@) == show_lines(response)
            },
            Err(_) => names@.len() == 0 && fails_with(r, "no input audio devices available"@),
        },
{
    let configured = configured_device_name(config);
    let (devices, available) = match enumerate_input_devices(
        names,
        default_name,
        as_text(&configured),
    ) {
        Ok(found) => found,
        Err(e) => {
            return Err(e);
        },
    };
    let ghost wanted = option_view(configured);
    let mut active_device: Option<String> = None;
    let mut active_id: Option<String> = None;
    let mut active_is_default = false;
    let position = active_position(&devices, as_text(&configured));
    if let Some(i) = position {
        active_device = Some(devices[i].name.clone());
        active_id = Some(devices[i].id.clone());
        active_is_default = devices[i].is_default;
    }
    let default_device = match find_default(&devices) {
        Some(i) => Some(devices[i].name.clone()),
        None => None,
    };
    let response = InputShowResponse {
        ok: true,
        configured_device: or_default(&configured),
        configured_device_available: available,
        active_device,
        active_id,
        active_is_default,
        default_device,
    };
    proof {
        assert(are_entries(devices@, names@, default_name, wanted));
        assert(shows_active(response, devices@, wanted));
        assert(shows_default(response, devices@));
    }
    let mut lines: Vec<String> = Vec::new();
    let mut first = "configured input: ".to_string();
    first.append(response.configured_device.as_str());
    lines.push(first);
    let mut second = "configured available: ".to_string();
    if available {
        second.append("yes");
    } else {
        second.append("no");
    }
    lines.push(second);
    match &response.active_device {
        Some(name) => {
            let mut line = "active input: ".to_string();
            line.append(name.as_str());
            line.append(" [");
            match &response.active_id {
                Some(id) => {
                    line.append(id.as_str());
                },
                None => {},
            }
            line.append("]");
            if response.active_is_default {
                line.append(" (default)");
            }
            lines.push(line);
        },
        None => {
            lines.push("active input: unavailable".to_string());
            lines.push("hint: run `omni input list` then `omni input set <id>`".to_string());
        },
    }
    match &response.default_device {
        Some(name) => {
            let mut line = "default input: ".to_string();
            line.append(name.as_str());
            lines.push(line);
        },
        None => {},
    }
    assert(views(lines@) =~= show_lines(response));
    Ok((response, lines))
}

/// What `input set` is asked for.
#[derive(Debug)]
pub enum InputTarget {
    /// The default device.
    Default,
    /// The device with this identifier.
    Id(String),
    /// The device with this name.
    Name(String),
}

/// The device that was chosen, and how it was named.
#[derive(Debug)]
pub struct SelectedInput {
    pub device: String,
    pub id: Option<String>,
    pub name: Option<String>,
}

/// What `input set` is asked for by an identifier or a name, of which exactly one is to be given.
pub fn input_target(id: Option<String>, name: Option<String>) -> (r: Result<InputTarget, Error>)
    ensures
        match (id, name) {
            (Some(id), None) => if id@ == "default"@ {
                r == Ok::<InputTarget, Error>(InputTarget::Default)
            } else {
                r is Ok && r->Ok_0 is Id && r->Ok_0->Id_0@ == id@
            },
            (None, Some(name)) => if trimmed(name@).len() == 0 {
                fails_with(r, "input device name cannot be empty"@)
            } else if trimmed(name@) == "default"@ {
                r == Ok::<InputTarget, Error>(InputTarget::Default)
            } else {
                r is Ok && r->Ok_0 is Name && r->Ok_0->Name_0@ == trimmed(name@)
            },
            (None, None) => fails_with(r, "provide either <id> or --name <device>"@),
            (Some(_), Some(_)) => fails_with(
                r,
                "provide either <id> or --name <device>, not both"@,
            ),
        },
{
    match (id, name) {
        (Some(id), None) => {
            if same(id.as_str(), "default") {
                Ok(InputTarget::Default)
            } else {
                Ok(InputTarget::Id(id))
            }
        },
        (None, Some(name)) => {
            let requested = trim(name.as_str());
            if requested.is_empty() {
                Err(Error::new("input device name cannot be empty"))
            } else if same(requested, "default") {
                Ok(InputTarget::Default)
            } else {
                Ok(InputTarget::Name(requested.to_string()))
            }
        },
        (None, None) => Err(Error::new("provide either <id> or --name <device>")),
        (Some(_), Some(_)) => Err(Error::new("provide either <id> or --name <device>, not both")),
    }
}

/// What choosing a device comes to.
pub enum Choice {
    Made { device: Seq<char>, id: Option<Seq<char>>, name: Option<Seq<char>> },
    Refused { message: Seq<char>, cause: Option<Seq<char>> },
}

/// What choosing among devices with these names and identifiers comes to; the default one needs
/// no device.
pub open spec fn chosen(
    target: InputTarget,
    names: Seq<Seq<char>>,
    ids: Seq<Seq<char>>,
) -> Choice {
    match target {
        InputTarget::Default => Choice::Made {
            device: "default"@,
            id: Some("default"@),
            name: None,
        },
        InputTarget::Id(id) => match parsed_unsigned(id@, usize::MAX as int) {
            None => Choice::Refused {
                message: "invalid input device id: "@ + id@,
                cause: Some(number_problem(id@, usize::MAX as int)),
            },
            Some(n) => if n < names.len() {
                Choice::Made { device: names[n], id: Some(id@), name: None }
            } else {
                Choice::Refused {
                    message: "input device id "@ + decimal(n as nat)
                        + " not found (available ids: "@ + joined(ids, ", "@) + ")"@,
                    cause: None,
                }
            },
        },
        InputTarget::Name(name) => if names.contains(name@) {
            Choice::Made { device: name@, id: None, name: Some(name@) }
        } else {
            Choice::Refused {
                message: "input device '"@ + name@ + "' not found (available devices: "@ + joined(
                    names,
                    ", "@,
                ) + ")"@,
                cause: None,
            }
        },
    }
}

/// Whether `r` is what choosing comes to.
pub open spec fn is_choice(r: Result<SelectedInput, Error>, choice: Choice) -> bool {
    match choice {
        Choice::Made { device, id, name } => {
            &&& r is Ok
            &&& r->Ok_0.device@ == device
            &&& option_view(r->Ok_0.id) == id
            &&& option_view(r->Ok_0.name) == name
        },
        Choice::Refused { message, cause } => {
            &&& r is Err
            &&& r->Err_0.message@ == message
            &&& option_view(r->Err_0.cause) == cause
        },
    }
}

/// Chooses the device that is asked for among these.
pub fn choose_device(target: &InputTarget, devices: &Vec<InputDeviceEntry>) -> (r: Result<
    SelectedInput,
    Error,
>)
    ensures
        is_choice(r, chosen(*target, names_of(devices@), ids_of(devices@))),
{
    match target {
        InputTarget::Default => Ok(
            SelectedInput {
                device: "default".to_string(),
                id: Some("default".to_string()),
                name: None,
            },
        ),
        InputTarget::Id(id) => {
            proof {
                let digits = unsigned_digits(id@);
                if all_digits(digits) {
                    digits_value_grows(digits, digits.len() as int);
                    assert(digits.take(digits.len() as int) =~= digits);
                }
            }
            match resolve_device_name_by_id(devices, id.as_str()) {
                Ok(device) => Ok(SelectedInput { device, id: Some(id.clone()), name: None }),
                Err(e) => Err(e),
            }
        },
        InputTarget::Name(name) => {
            proof {
                let names = names_of(devices@);
                if some_named(devices@, name@) {
                    let i = choose|i: int|
                        0 <= i < devices@.len() && (#[trigger] devices@[i]).name@ == name@;
                    assert(names[i] == name@);
                }
                if names.contains(name@) {
                    let i = names.index_of(name@);
                    assert(devices@[i].name@ == name@);
                }
            }
            match resolve_device_name_by_name(devices, name.as_str()) {
                Ok(device) => Ok(SelectedInput { device, id: None, name: Some(name.clone()) }),
                Err(e) => Err(e),
            }
        },
    }
}

/// Makes the chosen device the configured one.
pub fn configure_device(config: &mut ConfigValue, selected: &SelectedInput)
    requires
        well_formed(old(config)@),
    ensures
        well_formed(final(config)@),
        final(config)@ == with_path(
            old(config)@,
            key_path("audio.device"@),
            Tree::Text(selected.device@),
        ),
        value_at(final(config)@, "audio.device"@) == Some(Tree::Text(selected.device@)),
{
    proof {
        reveal_strlit("audio.device");
        key_with_a_name("audio.device"@, 0);
        get_after_set(config@, key_path("audio.device"@), Tree::Text(selected.device@));
    }
    let _ = set_value_by_key(
        config,
        "audio.device",
        ConfigValue::String(selected.device.clone()),
    );
}

/// A device that was chosen is the configured one from then on; where it is `default`, none is
/// configured. White space around a name would not be kept.
pub proof fn chosen_device_is_configured(t: Tree, device: Seq<char>)
    requires
        device.len() > 0,
        trimmed(device) == device,
    ensures
        configured_device(with_path(t, key_path("audio.device"@), Tree::Text(device))) == if device
            == "default"@ {
            None
        } else {
            Some(device)
        },
{
    reveal_strlit("audio.device");
    key_with_a_name("audio.device"@, 0);
    get_after_set(t, key_path("audio.device"@), Tree::Text(device));
}

/// What `input set` comes to where there are devices with these names.
pub open spec fn set_choice(target: InputTarget, names: Seq<Option<String>>) -> Choice {
    if !(target is Default) && names.len() == 0 {
        Choice::Refused { message: "no input audio devices available"@, cause: None }
    } else {
        chosen(
            target,
            Seq::new(names.len(), |i: int| shown_name(names[i])),
            Seq::new(names.len(), |i: int| decimal(i as nat)),
        )
    }
}

/// Chooses the device that is asked for among those with these names, and makes it the configured
/// one. Where there is no such device the configuration stays as it is.
pub fn set(config: &mut ConfigValue, target: &InputTarget, names: &Vec<Option<String>>) -> (r:
    Result<SelectedInput, Error>)
    requires
        well_formed(old(config)@),
    ensures
        is_choice(r, set_choice(*target, names@)),
        match r {
            Ok(selected) => {
                &&& well_formed(final(config)@)
                &&& final(config)@ == with_path(
                    old(config)@,
                    key_path("audio.device"@),
                    Tree::Text(selected.device@),
                )
                &&& value_at(final(config)@, "audio.device"@) == Some(Tree::Text(selected.device@))
            },
            Err(_) => *final(config) == *old(config),
        },
{
    let devices = match target {
        InputTarget::Default => Vec::new(),
        _ => match enumerate_input_devices(names, None, None) {
            Ok((devices, _)) => {
                assert(names_of(devices@) =~= Seq::new(
                    names@.len(),
                    |i: int| shown_name(names@[i]),
                ));
                assert(ids_of(devices@) =~= Seq::new(names@.len(), |i: int| decimal(i as nat)));
                devices
            },
            Err(e) => {
                return Err(e);
            },
        },
    };
    match choose_device(target, &devices) {
        Ok(selected) => {
            configure_device(config, &selected);
            Ok(selected)
        },
        Err(e) => Err(e),
    }
}

/// The lines that `input set` prints.
pub open spec fn set_lines(device: Seq<char>, path: Seq<char>, reloaded: bool) -> Seq<Seq<char>> {
    seq![
        "updated audio.device in "@ + path,
        "audio.device="@ + device,
        if reloaded {
            "daemon runtime config reloaded"@
        } else {
            "daemon not running; config applies on next start"@
        },
    ]
}

/// Answers `input set` once the configuration is saved at `path`: the answer itself, and the lines
/// that show it.
pub fn set_answer(selected: SelectedInput, path: &str, reloaded: bool) -> (r: (
    InputSetResponse,
    Vec<String>,
))
    ensures
        r.0.ok,
        r.0.id == selected.id,
        r.0.name == selected.name,
        r.0.device == selected.device,
        r.0.key@ == "audio.device"@,
        r.0.path@ == path@,
        r.0.daemon_reloaded == reloaded,
        r.0.message@ == if reloaded {
            "input device saved and daemon reloaded"@
        } else {
            "input device saved (daemon not running)"@
        },
        views(r.1@) == set_lines(selected.device@, path@, reloaded),
{
    let message = if reloaded {
        "input device saved and daemon reloaded".to_string()
    } else {
        "input device saved (daemon not running)".to_string()
    };
    let mut first = "updated audio.device in ".to_string();
    first.append(path);
    let mut second = "audio.device=".to_string();
    second.append(selected.device.as_str());
    let third = if reloaded {
        "daemon runtime config reloaded".to_string()
    } else {
        "daemon not running; config applies on next start".to_string()
    };
    let lines: Vec<String> = vec![first, second, third];
    assert(views(lines@) =~= set_lines(selected.device@, path@, reloaded));
    (
        InputSetResponse {
            ok: true,
            id: selected.id,
            name: selected.name,
            device: selected.device,
            key: "audio.device".to_string(),
            path: path.to_string(),
            daemon_reloaded: reloaded,
            message,
        },
        lines,
    )
}

// ---------------------------------------------------------------------------------------------
// Laws of the devices
// ---------------------------------------------------------------------------------------------

/// The configured device is the one that the configuration names, without the white space around
/// the name; the name `default`, a name of white space, and no name mean none.
pub proof fn configured_device_is_as_named(
    config: &ConfigValue,
    r: Option<String>,
    name: Seq<char>,
    ink: Seq<char>,
)
    requires
        call_ensures(configured_device_name, (config,), r),
        is_ink_of(ink, name),
    ensures
        value_at(config@, "audio.device"@) == Some(Tree::Text(name)) && ink.len() > 0 && ink
            != "default"@ ==> r is Some && r->0@ == ink,
        value_at(config@, "audio.device"@) == Some(Tree::Text(name)) && (ink.len() == 0 || ink
            == "default"@) ==> r is None,
        value_at(config@, "audio.device"@) is None ==> r is None,
{
    ink_is_unique(ink, name);
}

/// Each device has an entry, in the order of the devices: its place is its identifier, its name is
/// as it was given, it is the default one if it has that name, and it is selected if it is the
/// configured one, or the default one where none is configured.
pub proof fn every_device_has_its_entry(
    names: &Vec<Option<String>>,
    default_name: Option<&str>,
    configured: Option<&str>,
    r: Result<(Vec<InputDeviceEntry>, bool), Error>,
    i: int,
)
    requires
        call_ensures(enumerate_input_devices, (names, default_name, configured), r),
        0 <= i < names@.len(),
        names@[i] is Some,
    ensures
        r is Ok,
        (r->Ok_0).0@.len() == names@.len(),
        (r->Ok_0).0@[i].id@ == decimal(i as nat),
        (r->Ok_0).0@[i].name@ == names@[i]->0@,
        (r->Ok_0).0@[i].is_default <==> default_name is Some && default_name->0@ == names@[i]->0@,
        configured is Some ==> ((r->Ok_0).0@[i].is_selected <==> configured->0@ == names@[i]->0@),
        configured is None ==> (r->Ok_0).0@[i].is_selected == (r->Ok_0).0@[i].is_default,
        configured is None ==> (r->Ok_0).1,
        configured is Some && configured->0@ == names@[i]->0@ ==> (r->Ok_0).1,
{
    let devices = (r->Ok_0).0@;
    assert(r is Ok);
    assert(are_all_entries(devices, names@, default_name, configured));
    assert(is_entry(devices[i], names@, i, default_name, configured));
}

/// The device with an identifier is the one at that place, and the device with a name is the one of
/// that name; nothing else is found.
pub proof fn devices_are_found(
    devices: &Vec<InputDeviceEntry>,
    id: &str,
    name: &str,
    by_id: Result<String, Error>,
    by_name: Result<String, Error>,
    n: nat,
    i: int,
)
    requires
        call_ensures(resolve_device_name_by_id, (devices, id), by_id),
        call_ensures(resolve_device_name_by_name, (devices, name), by_name),
        id@ == decimal(n),
        n <= usize::MAX,
    ensures
        n < devices@.len() ==> by_id is Ok && by_id->Ok_0@ == devices@[n as int].name@,
        n >= devices@.len() ==> by_id is Err,
        0 <= i < devices@.len() && devices@[i].name@ == name@ ==> by_name is Ok && by_name->Ok_0@
            == name@,
        by_name is Ok ==> by_name->Ok_0@ == name@,
{
    number_is_parsed(n, usize::MAX as int);
}

/// The device that is asked for by its place in the list is the one that is configured from then
/// on: its name is what is chosen, and what is read from the configuration. One whose place is not
/// in the list is refused, and the configuration stays.
pub proof fn chosen_place_is_configured(
    config: &mut ConfigValue,
    target: &InputTarget,
    names: &Vec<Option<String>>,
    r: Result<SelectedInput, Error>,
    id: String,
    n: int,
    after: &ConfigValue,
    configured: Option<String>,
)
    requires
        call_ensures(set, (config, target, names), r),
        *target == InputTarget::Id(id),
        0 <= n <= usize::MAX,
        id@ == decimal(n as nat),
        *after == *final(config),
        call_ensures(configured_device_name, (after,), configured),
    ensures
        n < names@.len() && names@[n] is Some ==> r is Ok && r->Ok_0.device@ == names@[n]->0@,
        n < names@.len() && names@[n] is Some && is_ink_of(names@[n]->0@, names@[n]->0@)
            && names@[n]->0@.len() > 0 && names@[n]->0@ != "default"@ ==> configured is Some
            && configured->0@ == names@[n]->0@,
        n >= names@.len() ==> r is Err && *final(config) == *old(config),
{
    number_is_parsed(n as nat, usize::MAX as int);
    let shown = Seq::new(names@.len(), |i: int| shown_name(names@[i]));
    if n < names@.len() && names@[n] is Some {
        assert(shown[n] == names@[n]->0@);
        if is_ink_of(names@[n]->0@, names@[n]->0@) {
            ink_is_unique(names@[n]->0@, names@[n]->0@);
        }
    }
}

/// The device that is asked for by its name is the one that is configured from then on; a name that
/// no device has is refused, and the configuration stays.
pub proof fn chosen_name_is_configured(
    config: &mut ConfigValue,
    target: &InputTarget,
    names: &Vec<Option<String>>,
    r: Result<SelectedInput, Error>,
    name: String,
    i: int,
    after: &ConfigValue,
    configured: Option<String>,
)
    requires
        call_ensures(set, (config, target, names), r),
        *target == InputTarget::Name(name),
        *after == *final(config),
        call_ensures(configured_device_name, (after,), configured),
    ensures
        0 <= i < names@.len() && names@[i] is Some && names@[i]->0@ == name@ ==> r is Ok
            && r->Ok_0.device@ == name@,
        0 <= i < names@.len() && names@[i] is Some && names@[i]->0@ == name@ && is_ink_of(
            name@,
            name@,
        ) && name@.len() > 0 && name@ != "default"@ ==> configured is Some && configured->0@
            == name@,
        r is Err ==> *final(config) == *old(config),
{
    let shown = Seq::new(names@.len(), |i: int| shown_name(names@[i]));
    if 0 <= i < names@.len() && names@[i] is Some && names@[i]->0@ == name@ {
        assert(shown[i] == name@);
        assert(shown.contains(name@));
        if is_ink_of(name@, name@) {
            ink_is_unique(name@, name@);
        }
    }
}

/// The default device can always be chosen, and then none is configured; nothing but the device is
/// changed in the configuration.
pub proof fn default_can_be_chosen(
    config: &mut ConfigValue,
    target: &InputTarget,
    names: &Vec<Option<String>>,
    r: Result<SelectedInput, Error>,
    after: &ConfigValue,
    configured: Option<String>,
    key: Seq<char>,
    i: int,
)
    requires
        call_ensures(set, (config, target, names), r),
        *after == *final(config),
        call_ensures(configured_device_name, (after,), configured),
        0 <= i < key_path("audio.device"@).len(),
        i < key_path(key).len(),
        key_path("audio.device"@)[i] != key_path(key)[i],
    ensures
        target is Default ==> r is Ok && r->Ok_0.device@ == "default"@ && configured is None,
        value_at(final(config)@, key) == value_at(old(config)@, key),
{
    let device = key_path("audio.device"@);
    if r is Ok {
        let chosen = Tree::Text(r->Ok_0.device@);
        assert(final(config)@ == with_path(old(config)@, device, chosen));
        assert(value_at(with_path(old(config)@, device, chosen), key) == value_at(
            old(config)@,
            key,
        )) by {
            crate::config::different_names_lie_apart(device, key_path(key), i);
            crate::config::set_leaves_the_rest(old(config)@, device, chosen, key_path(key));
        }
    }
    if target is Default {
        assert(r is Ok && r->Ok_0.device@ == "default"@);
        assert(trimmed("default"@) == "default"@) by {
            reveal_strlit("default");
            assert("default"@[0] == 'd' && "default"@.last() == 't');
            tight_text_stays("default"@);
        }
        assert(value_at(after@, "audio.device"@) == Some(Tree::Text("default"@)));
        assert(configured_device(after@) is None);
    }
}

/// What `input set` is asked for: by an identifier that identifier, by a name that name without the
/// white space around it; by both or by none it is refused.
pub proof fn target_is_as_asked(
    id: Option<String>,
    name: Option<String>,
    r: Result<InputTarget, Error>,
    ink: Seq<char>,
)
    requires
        call_ensures(input_target, (id, name), r),
    ensures
        id is Some && name is None && id->0@ != "default"@ ==> r is Ok && r->Ok_0 is Id
            && r->Ok_0->Id_0@ == id->0@,
        id is Some && name is None && id->0@ == "default"@ ==> r is Ok && r->Ok_0 is Default,
        id is None && name is Some && is_ink_of(ink, name->0@) && ink.len() > 0 && ink
            != "default"@ ==> r is Ok && r->Ok_0 is Name && r->Ok_0->Name_0@ == ink,
        (id is Some) == (name is Some) ==> r is Err,
{
    if name is Some && is_ink_of(ink, name->0@) {
        ink_is_unique(ink, name->0@);
    }
}

/// The answer to `input set` says which device was chosen and where it was saved, and whether the
/// daemon knows of it.
pub proof fn choice_is_told(
    selected: SelectedInput,
    path: &str,
    reloaded: bool,
    r: (InputSetResponse, Vec<String>),
)
    requires
        call_ensures(set_answer, (selected, path, reloaded), r),
    ensures
        r.0.ok,
        r.0.device@ == selected.device@,
        r.0.id == selected.id,
        r.0.name == selected.name,
        r.0.path@ == path@,
        r.0.key@ == "audio.device"@,
        r.0.daemon_reloaded == reloaded,
        r.1@.len() == 3,
        r.1@[0]@ == "updated audio.device in "@ + path@,
        r.1@[1]@ == "audio.device="@ + selected.device@,
{
    let lines = views(r.1@);
    assert(lines.len() == r.1@.len());
    assert(lines[0] == r.1@[0]@ && lines[1] == r.1@[1]@);
}

/// `input show` tells the device that is used: the configured one where it is there, else none;
/// the default one where none is configured.
pub proof fn used_device_is_shown(
    config: &ConfigValue,
    names: &Vec<Option<String>>,
    default_name: Option<&str>,
    r: Result<(InputShowResponse, Vec<String>), Error>,
    configured: Option<String>,
    i: int,
)
    requires
        call_ensures(show, (config, names, default_name), r),
        call_ensures(configured_device_name, (config,), configured),
        0 <= i < names@.len(),
        names@[i] is Some,
    ensures
        r is Ok,
        configured is Some && names@[i]->0@ == configured->0@ ==> {
            &&& (r->Ok_0).0.active_device is Some
            &&& (r->Ok_0).0.active_device->0@ == configured->0@
            &&& (r->Ok_0).0.configured_device_available
            &&& (r->Ok_0).0.configured_device@ == configured->0@
        },
        configured is None && default_name is Some && names@[i]->0@ == default_name->0@ ==> {
            &&& (r->Ok_0).0.active_device is Some
            &&& (r->Ok_0).0.active_device->0@ == default_name->0@
            &&& (r->Ok_0).0.active_is_default
            &&& (r->Ok_0).0.configured_device@ == "default"@
        },
{
    let response = (r->Ok_0).0;
    let wanted = configured_device(config@);
    assert(r is Ok);
    let devices = choose|devices: Seq<InputDeviceEntry>| #[trigger]
        are_entries(devices, names@, default_name, wanted)
            && response.configured_device_available == is_available(devices, wanted)
            && shows_active(response, devices, wanted) && shows_default(response, devices);
    assert(are_entries(devices, names@, default_name, wanted));
    let used = devices[i];
    assert(used.name@ == names@[i]->0@);
    if configured is Some && names@[i]->0@ == configured->0@ {
        assert(is_active(devices, wanted, i));
        assert(some_named(devices, configured->0@));
    }
    if configured is None && default_name is Some && names@[i]->0@ == default_name->0@ {
        assert(is_active(devices, wanted, i));
    }
}

/// `input list` has a line for every device, with its identifier and its whole name, and says of
/// each whether it is selected and whether it is the default one.
pub proof fn every_device_is_listed(
    config: &ConfigValue,
    names: &Vec<Option<String>>,
    default_name: Option<&str>,
    r: Result<(InputListResponse, Vec<String>), Error>,
    i: int,
)
    requires
        call_ensures(list, (config, names, default_name), r),
        0 <= i < names@.len(),
        names@[i] is Some,
    ensures
        r is Ok,
        (r->Ok_0).0.devices@.len() == names@.len(),
        (r->Ok_0).0.devices@[i].name@ == names@[i]->0@,
        ({
            let lines = (r->Ok_0).1@;
            let entry = (r->Ok_0).0.devices@[i];
            let base = "  ["@ + decimal(i as nat) + "] "@ + names@[i]->0@;
            let line = lines[lines.len() - names@.len() + i]@;
            &&& lines.len() >= names@.len() + 2
            &&& entry.is_selected && entry.is_default ==> line == base + " (selected, default)"@
            &&& entry.is_selected && !entry.is_default ==> line == base + " (selected)"@
            &&& !entry.is_selected && entry.is_default ==> line == base + " (default)"@
            &&& !entry.is_selected && !entry.is_default ==> line == base
        }),
{
    let response = (r->Ok_0).0;
    let lines = (r->Ok_0).1@;
    let devices = response.devices@;
    let configured = configured_device(config@);
    assert(r is Ok);
    assert(are_entries(devices, names@, default_name, configured));
    assert(devices[i].name@ == names@[i]->0@);
    let shown = views(lines);
    assert(shown.len() == lines.len());
    assert(shown == list_lines(configured, response.configured_device_available, devices));
    let at = lines.len() - names@.len() + i;
    assert(shown[at] == lines[at]@);
    assert(device_lines(devices)[i] == device_line(devices[i]));
    assert(shown[at] == device_lines(devices)[i]);
}

} // verus!
