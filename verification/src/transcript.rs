//! Reading events of the server, and building the transcript from them.
use vstd::prelude::*;

use crate::cli::option_view;
use crate::fields::{
    lookup, lookup_after_put, lookup_after_put_elsewhere, named, position_of, put,
};
use crate::json::{
    array_view, field, field_trees, item_trees, json_text, no_fields, object_view, text_field, tidy,
    Json, JsonTree,
};
use crate::text::{
    begins_with, chars_of, ends_with, finishes_with, ink_is_unique, is_ink_of, is_white,
    is_white_char, same, starts_with, trim, trimmed, trimmed_end, trimmed_end_is_tight,
    trimmed_start, trimmed_start_is_tight, trimming_keeps_the_ink, views,
};

verus! {

// ---------------------------------------------------------------------------------------------
// The text in a value
// ---------------------------------------------------------------------------------------------

/// The names under which text is looked for, in the order in which they are preferred.
pub open spec fn preferred_names() -> Seq<Seq<char>> {
    seq![
        "text"@,
        "transcript"@,
        "delta"@,
        "value"@,
        "partial"@,
        "content"@,
        "parts"@,
        "item"@,
        "response"@,
        "output"@,
        "output_text"@,
        "message"@,
    ]
}

/// The text in a value, where there is any: of a text itself, of an array the texts of its items
/// together, of an object the text under the first name that has one.
pub open spec fn value_text(t: JsonTree) -> Option<Seq<char>>
    decreases t, 0nat,
{
    match t {
        JsonTree::Text(s) => if s.len() == 0 {
            None
        } else {
            Some(s)
        },
        JsonTree::Array(items) => if items_text(items).len() == 0 {
            None
        } else {
            Some(items_text(items))
        },
        JsonTree::Object(s) => first_text(s, preferred_names()),
        _ => None,
    }
}

/// The texts of items together.
pub open spec fn items_text(items: Seq<JsonTree>) -> Seq<char>
    decreases items, 0nat,
{
    if items.len() == 0 {
        Seq::empty()
    } else {
        items_text(items.drop_last()) + match value_text(items.last()) {
            Some(s) => s,
            None => Seq::empty(),
        }
    }
}

/// The text in the value that stands first under a name.
pub open spec fn named_text(s: Seq<(Seq<char>, JsonTree)>, k: Seq<char>) -> Option<Seq<char>>
    decreases s, 0nat,
{
    if s.len() == 0 {
        None
    } else if s[0].0 == k {
        proof {
            assert(decreases_to!(s => s[0]));
            assert(decreases_to!(s[0] => s[0].1));
        }
        value_text(s[0].1)
    } else {
        named_text(s.drop_first(), k)
    }
}

/// The text under the first of these names that has one.
pub open spec fn first_text(s: Seq<(Seq<char>, JsonTree)>, names: Seq<Seq<char>>) -> Option<
    Seq<char>,
>
    decreases s, names.len(),
{
    if names.len() == 0 {
        None
    } else if named_text(s, names[0]) is Some {
        named_text(s, names[0])
    } else {
        first_text(s, names.drop_first())
    }
}

proof fn named_text_is_text_of_lookup(s: Seq<(Seq<char>, JsonTree)>, k: Seq<char>)
    ensures
        named_text(s, k) == match lookup(s, k) {
            Some(v) => value_text(v),
            None => None,
        },
    decreases s.len(),
{
    if s.len() > 0 && s[0].0 != k {
        named_text_is_text_of_lookup(s.drop_first(), k);
    }
}

/// A text that was found is not empty.
pub proof fn found_text_is_not_empty(t: JsonTree)
    ensures
        value_text(t) is Some ==> value_text(t)->0.len() > 0,
    decreases t, 0nat,
{
    if let JsonTree::Object(s) = t {
        found_first_text_is_not_empty(s, preferred_names());
    }
}

proof fn found_named_text_is_not_empty(s: Seq<(Seq<char>, JsonTree)>, k: Seq<char>)
    ensures
        named_text(s, k) is Some ==> named_text(s, k)->0.len() > 0,
    decreases s, 0nat,
{
    if s.len() > 0 {
        if s[0].0 == k {
            assert(decreases_to!(s => s[0]));
            assert(decreases_to!(s[0] => s[0].1));
            found_text_is_not_empty(s[0].1);
        } else {
            found_named_text_is_not_empty(s.drop_first(), k);
        }
    }
}

/// A text that was found under one of the names is not empty.
pub proof fn found_first_text_is_not_empty(
    s: Seq<(Seq<char>, JsonTree)>,
    names: Seq<Seq<char>>,
)
    ensures
        first_text(s, names) is Some ==> first_text(s, names)->0.len() > 0,
    decreases s, names.len(),
{
    if names.len() > 0 {
        found_named_text_is_not_empty(s, names[0]);
        found_first_text_is_not_empty(s, names.drop_first());
    }
}

fn preferred() -> (r: Vec<String>)
    ensures
        views(r@) == preferred_names(),
{
    let names: Vec<String> = vec![
        "text".to_string(),
        "transcript".to_string(),
        "delta".to_string(),
        "value".to_string(),
        "partial".to_string(),
        "content".to_string(),
        "parts".to_string(),
        "item".to_string(),
        "response".to_string(),
        "output".to_string(),
        "output_text".to_string(),
        "message".to_string(),
    ];
    assert(views(names@) =~= preferred_names());
    names
}

/// The text in a value, where there is any.
pub fn text_from_value(value: &Json) -> (r: Option<String>)
    ensures
        option_view(r) == value_text(value@),
    decreases value, 0nat,
{
    match value {
        Json::String(s) => {
            if s.as_str().is_empty() {
                None
            } else {
                Some(s.clone())
            }
        },
        Json::Array(items) => {
            proof {
                array_view(*items);
            }
            let ghost trees = item_trees(items@);
            let mut joined = String::new();
            let mut i: usize = 0;
            assert(trees.take(0) =~= Seq::empty());
            while i < items.len()
                invariant
                    value is Array,
                    value->Array_0 == *items,
                    trees == item_trees(items@),
                    i <= items@.len(),
                    joined@ == items_text(trees.take(i as int)),
                decreases items@.len() - i,
            {
                assert(decreases_to!(value => items@[i as int]));
                assert(trees.take(i + 1).drop_last() =~= trees.take(i as int));
                assert(trees.take(i + 1).last() == items@[i as int]@);
                match text_from_value(&items[i]) {
                    Some(text) => {
                        joined.append(text.as_str());
                    },
                    None => {
                        assert(joined@ + Seq::<char>::empty() =~= joined@);
                    },
                }
                i = i + 1;
            }
            assert(trees.take(i as int) =~= trees);
            if joined.as_str().is_empty() {
                None
            } else {
                Some(joined)
            }
        },
        Json::Object(fields) => {
            proof {
                object_view(*fields);
            }
            let names = preferred();
            assert(decreases_to!(value => value->Object_0));
            first_text_of(fields, &names)
        },
        _ => None,
    }
}

fn first_text_of(fields: &Vec<(String, Json)>, names: &Vec<String>) -> (r: Option<String>)
    ensures
        option_view(r) == first_text(field_trees(fields@), views(names@)),
    decreases fields, 1nat,
{
    let ghost s = field_trees(fields@);
    let ghost all = views(names@);
    let mut i: usize = 0;
    assert(all.skip(0) =~= all);
    while i < names.len()
        invariant
            s == field_trees(fields@),
            all == views(names@),
            i <= names@.len(),
            first_text(s, all) == first_text(s, all.skip(i as int)),
        decreases names@.len() - i,
    {
        assert(all.skip(i as int)[0] == names@[i as int]@);
        assert(all.skip(i as int).drop_first() =~= all.skip(i + 1));
        proof {
            let k = names@[i as int]@;
            named_text_is_text_of_lookup(s, k);
            assert(s =~= crate::fields::mapped(named(fields@), |j: Json| j@));
            crate::fields::lookup_of_mapped(named(fields@), |j: Json| j@, k);
        }
        if let Some(n) = position_of(fields, names[i].as_str()) {
            proof {
                assert(decreases_to!(fields => fields@));
                assert(decreases_to!(fields@ => fields@[n as int]));
                assert(decreases_to!(fields@[n as int] => fields@[n as int].1));
            }
            let found = text_from_value(&fields[n].1);
            if found.is_some() {
                return found;
            }
        }
        i = i + 1;
    }
    None
}

// ---------------------------------------------------------------------------------------------
// The text in an event
// ---------------------------------------------------------------------------------------------

/// The names under which an event may bring text.
pub open spec fn event_names() -> Seq<Seq<char>> {
    seq![
        "delta"@,
        "text"@,
        "transcript"@,
        "transcription"@,
        "part"@,
        "item"@,
        "response"@,
    ]
}

/// The text under the first of the names under which an event may bring text.
pub open spec fn event_field_text(e: JsonTree) -> Option<Seq<char>> {
    match e {
        JsonTree::Object(s) => first_text(s, event_names()),
        _ => None,
    }
}

/// The text that an event brings, wherever in it that is.
pub open spec fn event_text(e: JsonTree) -> Option<Seq<char>> {
    if event_field_text(e) is Some {
        event_field_text(e)
    } else {
        value_text(e)
    }
}

fn field_text(event: &Json) -> (r: Option<String>)
    ensures
        option_view(r) == event_field_text(event@),
{
    match event {
        Json::Object(fields) => {
            proof {
                object_view(*fields);
            }
            let names: Vec<String> = vec![
                "delta".to_string(),
                "text".to_string(),
                "transcript".to_string(),
                "transcription".to_string(),
                "part".to_string(),
                "item".to_string(),
                "response".to_string(),
            ];
            assert(views(names@) =~= event_names());
            first_text_of(fields, &names)
        },
        _ => None,
    }
}

/// The type of an event, where it names one.
pub open spec fn event_type(e: JsonTree) -> Option<Seq<char>> {
    text_field(e, "type"@)
}

/// Whether events of this type bring text to add to what came before.
pub open spec fn is_delta_type(t: Seq<char>) -> bool {
    ||| t == "response.output_text.delta"@
    ||| t == "response.audio_transcript.delta"@
    ||| t == "response.text.delta"@
    ||| t == "conversation.item.input_audio_transcription.delta"@
    ||| t == "conversation.item.input_audio_transcription.partial"@
    ||| t == "transcription.delta"@
    ||| t == "response.content_part.added"@
}

/// What an event does to the transcript.
#[derive(Debug)]
pub enum TranscriptUpdate {
    /// This follows what came before.
    Delta(String),
    /// This is what came before, or more of it.
    Snapshot(String),
}

/// What an event does to the transcript, apart from how it is held.
pub enum UpdateView {
    Delta(Seq<char>),
    Snapshot(Seq<char>),
}

impl View for TranscriptUpdate {
    type V = UpdateView;

    open spec fn view(&self) -> UpdateView {
        match self {
            TranscriptUpdate::Delta(s) => UpdateView::Delta(s@),
            TranscriptUpdate::Snapshot(s) => UpdateView::Snapshot(s@),
        }
    }
}

/// What an event does to the transcript, where it brings text.
pub open spec fn event_update(e: JsonTree) -> Option<UpdateView> {
    match event_text(e) {
        Some(text) => if event_type(e) is Some && is_delta_type(event_type(e)->0) {
            Some(UpdateView::Delta(text))
        } else {
            Some(UpdateView::Snapshot(text))
        },
        None => None,
    }
}

fn brings_delta(t: &str) -> (r: bool)
    ensures
        r == is_delta_type(t@),
{
    same(t, "response.output_text.delta") || same(t, "response.audio_transcript.delta") || same(
        t,
        "response.text.delta",
    ) || same(t, "conversation.item.input_audio_transcription.delta") || same(
        t,
        "conversation.item.input_audio_transcription.partial",
    ) || same(t, "transcription.delta") || same(t, "response.content_part.added")
}

/// What the event does to the transcript, where it brings text.
pub fn transcript_update_from_event(event: &Json) -> (r: Option<TranscriptUpdate>)
    ensures
        match r {
            Some(update) => event_update(event@) == Some(update@),
            None => event_update(event@) is None,
        },
{
    let mut text = field_text(event);
    if text.is_none() {
        text = text_from_value(event);
    }
    match text {
        None => None,
        Some(text) => {
            let delta = match event.get_str("type") {
                Some(t) => brings_delta(t),
                None => false,
            };
            if delta {
                Some(TranscriptUpdate::Delta(text))
            } else {
                Some(TranscriptUpdate::Snapshot(text))
            }
        },
    }
}

/// Whether a status is one of an end.
pub open spec fn is_final_status(s: Option<Seq<char>>) -> bool {
    s == Some("completed"@) || s == Some("failed"@) || s == Some("cancelled"@)
}

/// Whether events of this type are ends by themselves.
pub open spec fn is_final_type(t: Seq<char>) -> bool {
    ||| t == "response.done"@
    ||| t == "response.completed"@
    ||| t == "response.failed"@
    ||| t == "response.error"@
    ||| t == "response.output_item.done"@
    ||| t == "conversation.item.input_audio_transcription.completed"@
    ||| t == "transcription.done"@
}

/// Whether an event says that the transcript is complete.
pub open spec fn is_completion(e: JsonTree) -> bool {
    match event_type(e) {
        None => false,
        Some(t) => is_final_type(t) || (begins_with(t, "response."@) && is_final_status(
            text_field(e, "status"@),
        )) || match field(e, "response"@) {
            Some(response) => is_final_status(text_field(response, "status"@)),
            None => false,
        },
    }
}

fn ends_status(s: Option<&str>) -> (r: bool)
    ensures
        r == is_final_status(crate::text::str_view(s)),
{
    match s {
        Some(s) => same(s, "completed") || same(s, "failed") || same(s, "cancelled"),
        None => false,
    }
}

fn ends_type(t: &str) -> (r: bool)
    ensures
        r == is_final_type(t@),
{
    same(t, "response.done") || same(t, "response.completed") || same(t, "response.failed") || same(
        t,
        "response.error",
    ) || same(t, "response.output_item.done") || same(
        t,
        "conversation.item.input_audio_transcription.completed",
    ) || same(t, "transcription.done")
}

/// Whether the event says that the transcript is complete.
pub fn event_indicates_completion(event: &Json) -> (r: bool)
    ensures
        r == is_completion(event@),
{
    let t = match event.get_str("type") {
        Some(t) => t,
        None => {
            return false;
        },
    };
    if ends_type(t) {
        return true;
    }
    if starts_with(t, "response.") && ends_status(event.get_str("status")) {
        return true;
    }
    match event.get("response") {
        Some(response) => ends_status(response.get_str("status")),
        None => false,
    }
}

// ---------------------------------------------------------------------------------------------
// The transcript
// ---------------------------------------------------------------------------------------------

/// The transcript once a snapshot has been taken in: the snapshot stands for what it repeats, and
/// follows what it does not.
pub open spec fn merged(transcript: Seq<char>, snapshot: Seq<char>) -> Seq<char> {
    let s = trimmed(snapshot);
    let current = trimmed(transcript);
    if s.len() == 0 {
        transcript
    } else if current.len() == 0 {
        s
    } else if s == current {
        transcript
    } else if begins_with(s, current) {
        s
    } else if finishes_with(current, s) {
        transcript
    } else if !is_white_char(transcript.last()) {
        transcript + " "@ + s
    } else {
        transcript + s
    }
}

/// The transcript once an update has been taken in.
pub open spec fn updated(transcript: Seq<char>, update: UpdateView) -> Seq<char> {
    match update {
        UpdateView::Delta(delta) => transcript + delta,
        UpdateView::Snapshot(snapshot) => merged(transcript, snapshot),
    }
}

/// Takes a snapshot into the transcript.
pub fn merge_transcript_snapshot(transcript: &mut String, snapshot: &str)
    ensures
        final(transcript)@ == merged(old(transcript)@, snapshot@),
{
    let ghost before = transcript@;
    let addition = trim(snapshot);
    if addition.is_empty() {
        return;
    }
    let current = trim(transcript.as_str()).to_string();
    if current.as_str().is_empty() {
        *transcript = addition.to_string();
        return;
    }
    if same(addition, current.as_str()) {
        return;
    }
    if starts_with(addition, current.as_str()) {
        *transcript = addition.to_string();
        return;
    }
    if ends_with(current.as_str(), addition) {
        return;
    }
    let chars = chars_of(transcript.as_str());
    proof {
        trimmed_start_is_tight(before);
        trimmed_end_is_tight(trimmed_start(before));
        assert(chars@.len() > 0);
    }
    if !is_white(chars[chars.len() - 1]) {
        transcript.append(" ");
    }
    transcript.append(addition);
}

/// Takes an update into the transcript.
pub fn apply_transcript_update(transcript: &mut String, update: &TranscriptUpdate)
    ensures
        final(transcript)@ == updated(old(transcript)@, update@),
{
    match update {
        TranscriptUpdate::Delta(delta) => {
            transcript.append(delta.as_str());
        },
        TranscriptUpdate::Snapshot(snapshot) => {
            merge_transcript_snapshot(transcript, snapshot.as_str());
        },
    }
}

/// Whatever the transcript was, it finishes with the snapshot that it has taken in.
pub proof fn merged_finishes_with_snapshot(transcript: Seq<char>, snapshot: Seq<char>)
    requires
        trimmed(snapshot).len() > 0,
    ensures
        finishes_with(trimmed(merged(transcript, snapshot)), trimmed(snapshot)),
{
    let s = trimmed(snapshot);
    let t = transcript;
    let current = trimmed(t);
    let m = merged(t, snapshot);
    crate::text::trimmed_is_idempotent(snapshot);
    assert(s.subrange(0, s.len() as int) =~= s);
    if current.len() == 0 || s == current || begins_with(s, current) {
        assert(finishes_with(s, s));
    } else if finishes_with(current, s) {
    } else {
        let sep = if !is_white_char(t.last()) { " "@ } else { Seq::empty() };
        assert(m =~= t + sep + s);
        trimmed_of_append(t, sep, s);
    }
}

/// Trimming a text that ends in a trimmed one keeps that end, and keeps what was not white before.
proof fn trimmed_of_append(t: Seq<char>, sep: Seq<char>, s: Seq<char>)
    requires
        s.len() > 0,
        trimmed(s) == s,
        trimmed(t).len() > 0,
    ensures
        finishes_with(trimmed(t + sep + s), s),
        trimmed(t + sep + s).len() > s.len(),
        begins_with(trimmed(t + sep + s), trimmed(t)),
{
    let m = t + sep + s;
    // The first character of `t` that is not white is where the trimmed text begins.
    trimmed_start_is_tight(t);
    trimmed_end_is_tight(trimmed_start(t));
    let cut = t.len() - trimmed_start(t).len();
    assert(trimmed_start(t).len() > 0);
    assert(!is_white_char(t[cut])) by {
        assert(trimmed_start(t)[0] == t[cut]);
    }
    trimmed_start_is_tight(m);
    let u = trimmed_start(m);
    let k = m.len() - u.len();
    assert(m[cut] == t[cut]);
    assert(k <= cut);
    // Its last character is that of `s`, which is not white.
    trimmed_start_is_tight(s);
    trimmed_end_is_tight(trimmed_start(s));
    assert(trimmed_start(s).len() == s.len());
    assert(trimmed_start(s) == s.skip(0));
    assert(s.skip(0) =~= s);
    assert(!is_white_char(s.last()));
    assert(m.last() == s.last());
    assert(u.last() == m.last());
    assert(trimmed_end(u) == u);
    assert(u =~= m.skip(k));
    assert(u.subrange(u.len() - s.len(), u.len() as int) =~= s);
    // What comes before its first character is white in both.
    assert(k == cut) by {
        if k < cut {
            assert(m[k] == t[k]);
            assert(u[0] == m[k]);
        }
    }
    let n = trimmed(t).len() as int;
    assert(u.subrange(0, n) =~= trimmed(t)) by {
        assert(trimmed(t) =~= t.skip(cut).take(n));
    }
}

/// Whatever snapshot it takes in, nothing of the transcript is lost.
pub proof fn merging_loses_nothing(transcript: Seq<char>, snapshot: Seq<char>)
    ensures
        begins_with(trimmed(merged(transcript, snapshot)), trimmed(transcript)),
{
    let s = trimmed(snapshot);
    let t = transcript;
    let current = trimmed(t);
    crate::text::trimmed_is_idempotent(snapshot);
    assert(current.subrange(0, current.len() as int) =~= current);
    if s.len() == 0 || s == current || begins_with(s, current) {
    } else if current.len() == 0 {
        assert(s.subrange(0, 0) =~= current);
    } else if !finishes_with(current, s) {
        let sep = if !is_white_char(t.last()) { " "@ } else { Seq::empty() };
        assert(merged(t, snapshot) =~= t + sep + s);
        trimmed_of_append(t, sep, s);
    }
}

/// A snapshot that comes again changes nothing.
pub proof fn merging_again_changes_nothing(transcript: Seq<char>, snapshot: Seq<char>)
    ensures
        merged(merged(transcript, snapshot), snapshot) == merged(transcript, snapshot),
{
    let s = trimmed(snapshot);
    let t = transcript;
    let current = trimmed(t);
    let m = merged(t, snapshot);
    crate::text::trimmed_is_idempotent(snapshot);
    if s.len() > 0 && current.len() > 0 && s != current && !begins_with(s, current)
        && !finishes_with(current, s) {
        let sep = if !is_white_char(t.last()) { " "@ } else { Seq::empty() };
        assert(m =~= t + sep + s);
        trimmed_of_append(t, sep, s);
    }
}

/// A snapshot of exactly what the deltas brought changes nothing.
pub proof fn snapshot_of_the_deltas_changes_nothing(transcript: Seq<char>)
    ensures
        merged(transcript, transcript) == transcript,
{
}

// ---------------------------------------------------------------------------------------------
// What the user interface is told
// ---------------------------------------------------------------------------------------------

/// An event for the user interface: its type and what it says.
pub struct UiMessage {
    pub event_type: String,
    pub payload: Json,
}

/// What the user interface is told of an update, where it is told anything: the type and the
/// payload.
pub open spec fn ui_update(update: UpdateView, transcript: Seq<char>) -> Option<
    (Seq<char>, JsonTree),
> {
    let preview = trimmed(transcript);
    if preview.len() == 0 {
        None
    } else {
        match update {
            UpdateView::Delta(delta) => if delta.len() == 0 {
                None
            } else {
                Some(
                    (
                        "transcript.delta"@,
                        JsonTree::Object(
                            put(
                                put(no_fields(), "delta"@, JsonTree::Text(delta)),
                                "preview"@,
                                JsonTree::Text(preview),
                            ),
                        ),
                    ),
                )
            },
            UpdateView::Snapshot(snapshot) => if trimmed(snapshot).len() == 0 {
                None
            } else {
                Some(
                    (
                        "transcript.snapshot"@,
                        JsonTree::Object(put(no_fields(), "text"@, JsonTree::Text(preview))),
                    ),
                )
            },
        }
    }
}

/// What an optional event for the user interface says.
pub open spec fn message_view(m: Option<UiMessage>) -> Option<(Seq<char>, JsonTree)> {
    match m {
        Some(m) => Some((m.event_type@, m.payload@)),
        None => None,
    }
}

/// What the user interface is told of an update that the transcript has taken in.
pub fn emit_transcript_update_for_ui(update: &TranscriptUpdate, transcript: &str) -> (r: Option<
    UiMessage,
>)
    ensures
        message_view(r) == ui_update(update@, transcript@),
        r is Some ==> tidy(r->0.payload@),
{
    let preview = trim(transcript);
    if preview.is_empty() {
        return None;
    }
    match update {
        TranscriptUpdate::Delta(delta) => {
            if delta.as_str().is_empty() {
                return None;
            }
            Some(
                UiMessage {
                    event_type: "transcript.delta".to_string(),
                    payload: Json::object().with("delta", Json::text(delta.as_str())).with(
                        "preview",
                        Json::text(preview),
                    ),
                },
            )
        },
        TranscriptUpdate::Snapshot(snapshot) => {
            if trim(snapshot.as_str()).is_empty() {
                return None;
            }
            Some(
                UiMessage {
                    event_type: "transcript.snapshot".to_string(),
                    payload: Json::object().with("text", Json::text(preview)),
                },
            )
        },
    }
}

// ---------------------------------------------------------------------------------------------
// What is noted of an event
// ---------------------------------------------------------------------------------------------

/// A text of at most `max` characters: what is cut off leaves an ellipsis.
pub open spec fn shortened(value: Seq<char>, max: int) -> Seq<char> {
    let s = trimmed(value);
    if s.len() <= max {
        s
    } else {
        s.take(max).push('…')
    }
}

/// The text cut to `max` characters.
pub fn shorten(value: &str, max: usize) -> (r: String)
    ensures
        r@ == shortened(value@, max as int),
{
    let s = trim(value);
    let count: usize = chars_of(s).len();
    if count <= max {
        return s.to_string();
    }
    let mut out = s.substring_char(0, max).to_string();
    assert(out@ =~= s@.take(max as int));
    out.push('…');
    out
}

/// The text that is noted of an event.
pub open spec fn noted_text(e: JsonTree) -> Option<Seq<char>> {
    match event_field_text(e) {
        Some(text) => Some(shortened(text, 160)),
        None => None,
    }
}

/// The text that is noted of the event.
pub fn event_text_fragment(event: &Json) -> (r: Option<String>)
    ensures
        option_view(r) == noted_text(event@),
{
    match field_text(event) {
        Some(text) => Some(shorten(text.as_str(), 160)),
        None => None,
    }
}

/// How much of an event itself is noted: only of those on transcription and of errors.
pub open spec fn noted_excerpt(e: JsonTree, t: Seq<char>) -> Option<Seq<char>> {
    if begins_with(t, "transcription"@) || t == "error"@ {
        Some(shortened(json_text(e), 380))
    } else {
        None
    }
}

/// How much of the event itself is noted.
pub fn event_raw_excerpt(event: &Json, event_type: &str) -> (r: Option<String>)
    requires
        tidy(event@),
    ensures
        option_view(r) == noted_excerpt(event@, event_type@),
{
    if !starts_with(event_type, "transcription") && !same(event_type, "error") {
        return None;
    }
    Some(shorten(event.to_text().as_str(), 380))
}

/// The first of two texts, or else the second.
pub open spec fn or_else(a: Option<Seq<char>>, b: Option<Seq<char>>) -> Option<Seq<char>> {
    if a is Some {
        a
    } else {
        b
    }
}

/// The text under a name in the error of an event.
pub open spec fn error_field(e: JsonTree, k: Seq<char>) -> Option<Seq<char>> {
    match field(e, "error"@) {
        Some(error) => text_field(error, k),
        None => None,
    }
}

/// The code of the error that an event brings, where it brings one.
pub open spec fn error_code(e: JsonTree) -> Option<Seq<char>> {
    or_else(error_field(e, "code"@), text_field(e, "code"@))
}

/// The message of the error that an event brings, where it brings one.
pub open spec fn error_message(e: JsonTree) -> Option<Seq<char>> {
    or_else(
        or_else(error_field(e, "message"@), text_field(e, "error"@)),
        text_field(e, "message"@),
    )
}

/// The event that the error is about, where it is named.
pub open spec fn error_event(e: JsonTree) -> Option<Seq<char>> {
    or_else(error_field(e, "event_id"@), text_field(e, "event_id"@))
}

fn owned(s: Option<&str>) -> (r: Option<String>)
    ensures
        option_view(r) == crate::text::str_view(s),
{
    match s {
        Some(s) => Some(s.to_string()),
        None => None,
    }
}

fn in_error(event: &Json, k: &str) -> (r: Option<String>)
    ensures
        option_view(r) == error_field(event@, k@),
{
    match event.get("error") {
        Some(error) => owned(error.get_str(k)),
        None => None,
    }
}

fn in_error_or_event(event: &Json, k: &str) -> (r: Option<String>)
    ensures
        option_view(r) == or_else(error_field(event@, k@), text_field(event@, k@)),
{
    let found = in_error(event, k);
    if found.is_some() {
        return found;
    }
    owned(event.get_str(k))
}

/// What an error that an event brings is: its code, its message, and the event that it is about.
#[derive(Debug)]
pub struct EventError {
    pub code: Option<String>,
    pub message: Option<String>,
    pub event_id: Option<String>,
}

/// What the error that the event brings is.
pub fn event_error_metadata(event: &Json) -> (r: EventError)
    ensures
        option_view(r.code) == error_code(event@),
        option_view(r.message) == error_message(event@),
        option_view(r.event_id) == error_event(event@),
{
    let code = in_error_or_event(event, "code");
    let mut message = in_error(event, "message");
    if message.is_none() {
        message = owned(event.get_str("error"));
    }
    if message.is_none() {
        message = owned(event.get_str("message"));
    }
    let event_id = in_error_or_event(event, "event_id");
    EventError { code, message, event_id }
}

// ---------------------------------------------------------------------------------------------
// Laws of the transcript
// ---------------------------------------------------------------------------------------------

/// Whether an event of the protocol brings `delta` to add to what came before: its type is one of
/// those that bring more text, and the text stands under `delta`.
pub open spec fn is_delta_event(e: JsonTree, delta: Seq<char>) -> bool {
    match e {
        JsonTree::Object(s) => {
            &&& delta.len() > 0
            &&& lookup(s, "delta"@) == Some(JsonTree::Text(delta))
            &&& {
                ||| lookup(s, "type"@) == Some(JsonTree::Text("response.output_text.delta"@))
                ||| lookup(s, "type"@) == Some(JsonTree::Text("response.audio_transcript.delta"@))
                ||| lookup(s, "type"@) == Some(JsonTree::Text("response.text.delta"@))
                ||| lookup(s, "type"@) == Some(
                    JsonTree::Text("conversation.item.input_audio_transcription.delta"@),
                )
                ||| lookup(s, "type"@) == Some(
                    JsonTree::Text("conversation.item.input_audio_transcription.partial"@),
                )
                ||| lookup(s, "type"@) == Some(JsonTree::Text("transcription.delta"@))
                ||| lookup(s, "type"@) == Some(JsonTree::Text("response.content_part.added"@))
            }
        },
        _ => false,
    }
}

/// Whether an event of the protocol brings `text` as the whole of what was said: its type is one of
/// those that end a text, and the text stands under `text` or `transcript`.
pub open spec fn is_whole_event(e: JsonTree, text: Seq<char>) -> bool {
    match e {
        JsonTree::Object(s) => {
            &&& text.len() > 0
            &&& lookup(s, "delta"@) is None
            &&& {
                ||| lookup(s, "text"@) == Some(JsonTree::Text(text))
                ||| lookup(s, "text"@) is None && lookup(s, "transcript"@) == Some(
                    JsonTree::Text(text),
                )
            }
            &&& {
                ||| lookup(s, "type"@) == Some(JsonTree::Text("response.output_text.done"@))
                ||| lookup(s, "type"@) == Some(JsonTree::Text("response.audio_transcript.done"@))
                ||| lookup(s, "type"@) == Some(JsonTree::Text("response.text.done"@))
                ||| lookup(s, "type"@) == Some(
                    JsonTree::Text("conversation.item.input_audio_transcription.completed"@),
                )
                ||| lookup(s, "type"@) == Some(
                    JsonTree::Text("conversation.item.input_audio_transcription.done"@),
                )
                ||| lookup(s, "type"@) == Some(JsonTree::Text("transcription.done"@))
                ||| lookup(s, "type"@) == Some(JsonTree::Text("response.content_part.done"@))
                ||| lookup(s, "type"@) == Some(JsonTree::Text("response.output_item.added"@))
                ||| lookup(s, "type"@) == Some(JsonTree::Text("response.output_item.done"@))
                ||| lookup(s, "type"@) == Some(JsonTree::Text("response.done"@))
                ||| lookup(s, "type"@) == Some(JsonTree::Text("response.completed"@))
            }
        },
        _ => false,
    }
}

/// The types that end a text are none of those that add to one.
proof fn ends_are_no_deltas()
    ensures
        !is_delta_type("response.output_text.done"@),
        !is_delta_type("response.audio_transcript.done"@),
        !is_delta_type("response.text.done"@),
        !is_delta_type("conversation.item.input_audio_transcription.completed"@),
        !is_delta_type("conversation.item.input_audio_transcription.done"@),
        !is_delta_type("transcription.done"@),
        !is_delta_type("response.content_part.done"@),
        !is_delta_type("response.output_item.added"@),
        !is_delta_type("response.output_item.done"@),
        !is_delta_type("response.done"@),
        !is_delta_type("response.completed"@),
{
    reveal_strlit("response.output_text.done");
    reveal_strlit("response.audio_transcript.done");
    reveal_strlit("response.text.done");
    reveal_strlit("conversation.item.input_audio_transcription.completed");
    reveal_strlit("conversation.item.input_audio_transcription.done");
    reveal_strlit("transcription.done");
    reveal_strlit("response.content_part.done");
    reveal_strlit("response.output_item.added");
    reveal_strlit("response.output_item.done");
    reveal_strlit("response.done");
    reveal_strlit("response.completed");
    reveal_strlit("response.output_text.delta");
    reveal_strlit("response.audio_transcript.delta");
    reveal_strlit("response.text.delta");
    reveal_strlit("conversation.item.input_audio_transcription.delta");
    reveal_strlit("conversation.item.input_audio_transcription.partial");
    reveal_strlit("transcription.delta");
    reveal_strlit("response.content_part.added");
    let delta = "response.output_text.delta"@;
    assert("response.output_text.done"@.last() == 'e' && "response.audio_transcript.done"@.last()
        == 'e' && "response.text.done"@.last() == 'e'
        && "conversation.item.input_audio_transcription.done"@.last() == 'e'
        && "transcription.done"@.last() == 'e' && "response.content_part.done"@.last() == 'e'
        && "response.output_item.done"@.last() == 'e' && "response.done"@.last() == 'e');
    assert(delta.last() == 'a' && "response.audio_transcript.delta"@.last() == 'a'
        && "response.text.delta"@.last() == 'a'
        && "conversation.item.input_audio_transcription.delta"@.last() == 'a'
        && "transcription.delta"@.last() == 'a'
        && "conversation.item.input_audio_transcription.partial"@.last() == 'l'
        && "response.content_part.added"@.last() == 'd');
    assert("conversation.item.input_audio_transcription.completed"@[0] == 'c');
    assert("response.content_part.added"@[0] == 'r');
    assert("conversation.item.input_audio_transcription.completed"@.last() == 'd');
    assert("response.output_item.added"@[9] == 'o' && "response.content_part.added"@[9] == 'c');
    assert("response.output_item.added"@.last() == 'd');
    assert("response.completed"@.last() == 'd' && "response.completed"@.len() == 18);
    assert("response.content_part.added"@.len() > 18);
}

/// What stands directly under the first of the names that an event has decides what it brings.
proof fn text_under_names(s: Seq<(Seq<char>, JsonTree)>, text: Seq<char>)
    requires
        text.len() > 0,
    ensures
        lookup(s, "delta"@) == Some(JsonTree::Text(text)) ==> event_text(JsonTree::Object(s))
            == Some(text),
        lookup(s, "delta"@) is None && lookup(s, "text"@) == Some(JsonTree::Text(text))
            ==> event_text(JsonTree::Object(s)) == Some(text),
        lookup(s, "delta"@) is None && lookup(s, "text"@) is None && lookup(s, "transcript"@)
            == Some(JsonTree::Text(text)) ==> event_text(JsonTree::Object(s)) == Some(text),
{
    let names = event_names();
    named_text_is_text_of_lookup(s, "delta"@);
    named_text_is_text_of_lookup(s, "text"@);
    named_text_is_text_of_lookup(s, "transcript"@);
    assert(names[0] == "delta"@ && names.drop_first()[0] == "text"@
        && names.drop_first().drop_first()[0] == "transcript"@);
    assert(value_text(JsonTree::Text(text)) == Some(text));
    reveal_with_fuel(first_text, 4);
}

/// An event that brings more text is read as just that text, to be added.
pub proof fn delta_event_is_read_whole(event: &Json, delta: Seq<char>, r: Option<TranscriptUpdate>)
    requires
        call_ensures(transcript_update_from_event, (event,), r),
        is_delta_event(event@, delta),
    ensures
        r is Some && r->0 is Delta && r->0->Delta_0@ == delta,
{
    text_under_names(event@->Object_0, delta);
}

/// An event that ends a text is read as just that text, to be taken as the whole.
pub proof fn whole_event_is_read_whole(event: &Json, text: Seq<char>, r: Option<TranscriptUpdate>)
    requires
        call_ensures(transcript_update_from_event, (event,), r),
        is_whole_event(event@, text),
    ensures
        r is Some && r->0 is Snapshot && r->0->Snapshot_0@ == text,
{
    text_under_names(event@->Object_0, text);
    ends_are_no_deltas();
}

/// What an event without any text in it is read as: nothing.
pub proof fn event_without_text_is_nothing(event: &Json, r: Option<TranscriptUpdate>)
    requires
        call_ensures(transcript_update_from_event, (event,), r),
        event@ is Object,
        forall|k: Seq<char>|
            match #[trigger] lookup(event@->Object_0, k) {
                Some(JsonTree::Text(t)) => t.len() == 0 || k == "type"@,
                Some(JsonTree::Array(_)) => false,
                Some(JsonTree::Object(_)) => false,
                _ => true,
            },
    ensures
        r is None,
{
    let s = event@->Object_0;
    assert("type"@.len() == 4 && "type"@[1] == 'y') by {
        reveal_strlit("type");
    }
    names_are_not_type();
    no_text_under(s, event_names());
    no_text_under(s, preferred_names());
}

proof fn names_are_not_type()
    ensures
        forall|i: int| 0 <= i < event_names().len() ==> #[trigger] event_names()[i] != "type"@,
        forall|i: int|
            0 <= i < preferred_names().len() ==> #[trigger] preferred_names()[i] != "type"@,
{
    reveal_strlit("type");
    reveal_strlit("text");
    reveal_strlit("transcript");
    reveal_strlit("delta");
    reveal_strlit("value");
    reveal_strlit("partial");
    reveal_strlit("content");
    reveal_strlit("parts");
    reveal_strlit("item");
    reveal_strlit("response");
    reveal_strlit("output");
    reveal_strlit("output_text");
    reveal_strlit("message");
    reveal_strlit("transcription");
    reveal_strlit("part");
    assert("type"@[1] == 'y' && "text"@[1] == 'e' && "item"@[1] == 't' && "part"@[1] == 'a');
    assert("type"@.len() == 4);
}

proof fn no_text_under(s: Seq<(Seq<char>, JsonTree)>, names: Seq<Seq<char>>)
    requires
        forall|i: int| 0 <= i < names.len() ==> #[trigger] names[i] != "type"@,
        forall|k: Seq<char>|
            match #[trigger] lookup(s, k) {
                Some(JsonTree::Text(t)) => t.len() == 0 || k == "type"@,
                Some(JsonTree::Array(_)) => false,
                Some(JsonTree::Object(_)) => false,
                _ => true,
            },
    ensures
        first_text(s, names) is None,
    decreases names.len(),
{
    if names.len() > 0 {
        named_text_is_text_of_lookup(s, names[0]);
        let v = lookup(s, names[0]);
        assert forall|i: int| 0 <= i < names.drop_first().len() implies #[trigger]
        names.drop_first()[i] != "type"@ by {
            assert(names[i + 1] != "type"@);
        }
        no_text_under(s, names.drop_first());
    }
}

/// The text of an array is that of its items together, one after the other.
pub proof fn text_of_items_together(a: Seq<JsonTree>, b: Seq<JsonTree>)
    ensures
        items_text(a + b) == items_text(a) + items_text(b),
    decreases b.len(),
{
    if b.len() == 0 {
        assert(a + b =~= a);
        assert(items_text(a) + items_text(b) =~= items_text(a));
    } else {
        assert((a + b).drop_last() =~= a + b.drop_last());
        text_of_items_together(a, b.drop_last());
        assert(items_text(a + b) =~= items_text(a) + items_text(b));
    }
}

/// The text of an array of texts is those texts together.
pub proof fn text_of_texts(value: &Json, parts: Seq<Seq<char>>, r: Option<String>)
    requires
        call_ensures(text_from_value, (value,), r),
        value@ is Array,
        value@->Array_0.len() == parts.len(),
        forall|i: int|
            0 <= i < parts.len() ==> (#[trigger] value@->Array_0[i]) == JsonTree::Text(parts[i]),
        parts.flatten_alt().len() > 0,
    ensures
        r is Some && r->0@ == parts.flatten_alt(),
{
    texts_together(value@->Array_0, parts);
}

proof fn texts_together(items: Seq<JsonTree>, parts: Seq<Seq<char>>)
    requires
        items.len() == parts.len(),
        forall|i: int| 0 <= i < parts.len() ==> (#[trigger] items[i]) == JsonTree::Text(parts[i]),
    ensures
        items_text(items) == parts.flatten_alt(),
    decreases items.len(),
{
    if items.len() > 0 {
        assert forall|i: int| 0 <= i < parts.drop_last().len() implies (
            #[trigger] items.drop_last()[i]) == JsonTree::Text(parts.drop_last()[i]) by {
            assert(items[i] == JsonTree::Text(parts[i]));
        }
        texts_together(items.drop_last(), parts.drop_last());
        assert(items[items.len() - 1] == JsonTree::Text(parts[items.len() - 1]));
        assert(value_text(items.last()) == if parts.last().len() == 0 {
            None
        } else {
            Some(parts.last())
        });
        if parts.last().len() == 0 {
            assert(parts.last() =~= Seq::empty());
        }
        assert(items_text(items) =~= items_text(items.drop_last()) + parts.last());
        assert(parts.flatten_alt() =~= parts.drop_last().flatten_alt() + parts.last());
    }
}

/// A text is its own text.
pub proof fn text_of_a_text(value: &Json, text: Seq<char>, r: Option<String>)
    requires
        call_ensures(text_from_value, (value,), r),
        value@ == JsonTree::Text(text),
    ensures
        text.len() > 0 ==> r is Some && r->0@ == text,
        text.len() == 0 ==> r is None,
{
}

/// More text is added at the end of the transcript, and changes nothing before it.
pub proof fn delta_is_added(transcript: &mut String, update: &TranscriptUpdate)
    requires
        call_ensures(apply_transcript_update, (transcript, update), ()),
        update is Delta,
    ensures
        final(transcript)@ == old(transcript)@ + update->Delta_0@,
{
}

/// What the whole of what was said does to the transcript. Where it is nothing but white space, or
/// the transcript ends with it, the transcript stays. Where it begins with the transcript, it takes
/// its place. Else it follows, with one space before it unless white space is there.
pub proof fn whole_is_merged(transcript: &mut String, update: &TranscriptUpdate)
    requires
        call_ensures(apply_transcript_update, (transcript, update), ()),
        update is Snapshot,
    ensures
        ({
            let before = old(transcript)@;
            let after = final(transcript)@;
            let whole = update->Snapshot_0@;
            &&& forall|s: Seq<char>, t: Seq<char>|
                #![trigger is_ink_of(s, whole), is_ink_of(t, before)]
                is_ink_of(s, whole) && is_ink_of(t, before) ==> {
                    &&& s.len() == 0 ==> after == before
                    &&& s.len() > 0 && t.len() == 0 ==> after == s
                    &&& s.len() > 0 && s == t ==> after == before
                    &&& s.len() > t.len() && s.take(t.len() as int) == t ==> after == s
                    &&& 0 < s.len() < t.len() && t.skip(t.len() - s.len()) == s ==> after == before
                    &&& s.len() > 0 && t.len() > 0 && !(s.len() >= t.len() && s.take(
                        t.len() as int,
                    ) == t) && !(s.len() <= t.len() && t.skip(t.len() - s.len()) == s) ==> after
                        == if is_white_char(before.last()) {
                        before + s
                    } else {
                        before + seq![' '] + s
                    }
                }
        }),
{
    let before = old(transcript)@;
    let whole = update->Snapshot_0@;
    reveal_strlit(" ");
    assert(" "@ =~= seq![' ']);
    assert forall|s: Seq<char>, t: Seq<char>|
        #![trigger is_ink_of(s, whole), is_ink_of(t, before)]
        is_ink_of(s, whole) && is_ink_of(t, before) implies {
        let after = merged(before, whole);
        &&& s.len() == 0 ==> after == before
        &&& s.len() > 0 && t.len() == 0 ==> after == s
        &&& s.len() > 0 && s == t ==> after == before
        &&& s.len() > t.len() && s.take(t.len() as int) == t ==> after == s
        &&& 0 < s.len() < t.len() && t.skip(t.len() - s.len()) == s ==> after == before
        &&& s.len() > 0 && t.len() > 0 && !(s.len() >= t.len() && s.take(
            t.len() as int,
        ) == t) && !(s.len() <= t.len() && t.skip(t.len() - s.len()) == s) ==> after
            == if is_white_char(before.last()) {
            before + s
        } else {
            before + seq![' '] + s
        }
    } by {
        ink_is_unique(s, whole);
        ink_is_unique(t, before);
        assert(s.take(s.len() as int) =~= s);
        if begins_with(s, t) {
            assert(s.subrange(0, t.len() as int) =~= s.take(t.len() as int));
        }
        if finishes_with(t, s) {
            assert(t.subrange(t.len() - s.len(), t.len() as int) =~= t.skip(t.len() - s.len()));
        }
        if s.len() > t.len() && s.take(t.len() as int) == t {
            assert(s.subrange(0, t.len() as int) =~= s.take(t.len() as int));
            assert(begins_with(s, t));
        }
        if 0 < s.len() < t.len() && t.skip(t.len() - s.len()) == s {
            assert(t.subrange(t.len() - s.len(), t.len() as int) =~= t.skip(t.len() - s.len()));
            assert(finishes_with(t, s));
            if begins_with(s, t) {
                assert(t.len() <= s.len());
            }
        }
    }
}

/// An event that ends a text says that the transcript is complete where its type is one of these
/// ends; one that only adds text and has no status does not.
pub proof fn ends_are_noticed(event: &Json, s: Seq<(Seq<char>, JsonTree)>, r: bool)
    requires
        call_ensures(event_indicates_completion, (event,), r),
        event@ == JsonTree::Object(s),
    ensures
        lookup(s, "type"@) == Some(JsonTree::Text("response.done"@)) ==> r,
        lookup(s, "type"@) == Some(JsonTree::Text("response.completed"@)) ==> r,
        lookup(s, "type"@) == Some(JsonTree::Text("response.failed"@)) ==> r,
        lookup(s, "type"@) == Some(JsonTree::Text("response.error"@)) ==> r,
        lookup(s, "type"@) == Some(JsonTree::Text("response.output_item.done"@)) ==> r,
        lookup(s, "type"@) == Some(
            JsonTree::Text("conversation.item.input_audio_transcription.completed"@),
        ) ==> r,
        lookup(s, "type"@) == Some(JsonTree::Text("transcription.done"@)) ==> r,
        lookup(s, "type"@) is None ==> !r,
        forall|d: Seq<char>|
            #[trigger] is_delta_event(event@, d) && lookup(s, "status"@) is None && lookup(
                s,
                "response"@,
            ) is None ==> !r,
{
    deltas_are_no_ends();
    assert forall|d: Seq<char>| #[trigger] is_delta_event(event@, d) && lookup(s, "status"@) is None
        && lookup(s, "response"@) is None implies !r by {
        assert(is_delta_type(event_type(event@)->0));
    }
}

proof fn deltas_are_no_ends()
    ensures
        forall|t: Seq<char>| #[trigger] is_delta_type(t) ==> !is_final_type(t),
{
    ends_are_no_deltas();
    assert(!is_delta_type("response.failed"@) && !is_delta_type("response.error"@)) by {
        reveal_strlit("response.failed");
        reveal_strlit("response.error");
        reveal_strlit("response.output_text.delta");
        reveal_strlit("response.audio_transcript.delta");
        reveal_strlit("response.text.delta");
        reveal_strlit("conversation.item.input_audio_transcription.delta");
        reveal_strlit("conversation.item.input_audio_transcription.partial");
        reveal_strlit("transcription.delta");
        reveal_strlit("response.content_part.added");
        assert("response.failed"@.len() == 15 && "response.error"@.len() == 14);
        assert("response.output_text.delta"@.len() > 15 && "response.audio_transcript.delta"@.len()
            > 15 && "response.text.delta"@.len() > 15
            && "conversation.item.input_audio_transcription.delta"@.len() > 15
            && "conversation.item.input_audio_transcription.partial"@.len() > 15
            && "transcription.delta"@.len() > 15 && "response.content_part.added"@.len() > 15);
    }
}

/// What the user interface is told of an update: of added text that text, and always the transcript
/// without the white space around it. It is told nothing of an update or a transcript without ink.
pub proof fn interface_is_told_the_transcript(
    update: &TranscriptUpdate,
    transcript: &str,
    r: Option<UiMessage>,
)
    requires
        call_ensures(emit_transcript_update_for_ui, (update, transcript), r),
    ensures
        match r {
            Some(message) => {
                &&& message.payload@ is Object
                &&& match update {
                    TranscriptUpdate::Delta(delta) => {
                        &&& message.event_type@ == "transcript.delta"@
                        &&& lookup(message.payload@->Object_0, "delta"@) == Some(
                            JsonTree::Text(delta@),
                        )
                        &&& lookup(message.payload@->Object_0, "preview"@) is Some
                        &&& lookup(message.payload@->Object_0, "preview"@)->0 is Text
                        &&& is_ink_of(
                            lookup(message.payload@->Object_0, "preview"@)->0->Text_0,
                            transcript@,
                        )
                    },
                    TranscriptUpdate::Snapshot(_) => {
                        &&& message.event_type@ == "transcript.snapshot"@
                        &&& lookup(message.payload@->Object_0, "text"@) is Some
                        &&& lookup(message.payload@->Object_0, "text"@)->0 is Text
                        &&& is_ink_of(
                            lookup(message.payload@->Object_0, "text"@)->0->Text_0,
                            transcript@,
                        )
                    },
                }
            },
            None => {
                ||| is_ink_of(Seq::empty(), transcript@)
                ||| update is Delta && update->Delta_0@.len() == 0
                ||| update is Snapshot && is_ink_of(Seq::empty(), update->Snapshot_0@)
            },
        },
{
    trimming_keeps_the_ink(transcript@);
    if trimmed(transcript@).len() == 0 {
        assert(trimmed(transcript@) =~= Seq::empty());
    }
    match update {
        TranscriptUpdate::Delta(delta) => {
            let first = put(no_fields(), "delta"@, JsonTree::Text(delta@));
            let preview = JsonTree::Text(trimmed(transcript@));
            assert("delta"@ != "preview"@) by {
                reveal_strlit("delta");
                reveal_strlit("preview");
                assert("delta"@.len() == 5 && "preview"@.len() == 7);
            }
            lookup_after_put(no_fields(), "delta"@, JsonTree::Text(delta@));
            lookup_after_put(first, "preview"@, preview);
            lookup_after_put_elsewhere(first, "preview"@, preview, "delta"@);
        },
        TranscriptUpdate::Snapshot(snapshot) => {
            trimming_keeps_the_ink(snapshot@);
            if trimmed(snapshot@).len() == 0 {
                assert(trimmed(snapshot@) =~= Seq::empty());
            }
            lookup_after_put(no_fields(), "text"@, JsonTree::Text(trimmed(transcript@)));
        },
    }
}

/// A text that is cut short keeps its first characters, as many as there is room for, and says so
/// by an ellipsis; one that has room stays.
pub proof fn cut_text_keeps_its_start(value: &str, max: usize, r: String, ink: Seq<char>)
    requires
        call_ensures(shorten, (value, max), r),
        is_ink_of(ink, value@),
    ensures
        ink.len() <= max ==> r@ == ink,
        ink.len() > max ==> r@.len() == max + 1 && r@.last() == '…' && r@.take(max as int)
            == ink.take(max as int),
{
    ink_is_unique(ink, value@);
    if ink.len() > max {
        assert(ink.take(max as int).push('…').take(max as int) =~= ink.take(max as int));
    }
}

/// An error that an event brings is told by its code and its message.
pub proof fn errors_are_told(
    event: &Json,
    s: Seq<(Seq<char>, JsonTree)>,
    error: Seq<(Seq<char>, JsonTree)>,
    code: Seq<char>,
    message: Seq<char>,
    r: EventError,
)
    requires
        call_ensures(event_error_metadata, (event,), r),
        event@ == JsonTree::Object(s),
        lookup(s, "error"@) == Some(JsonTree::Object(error)),
    ensures
        lookup(error, "code"@) == Some(JsonTree::Text(code)) ==> r.code is Some && r.code->0@
            == code,
        lookup(error, "message"@) == Some(JsonTree::Text(message)) ==> r.message is Some
            && r.message->0@ == message,
{
}

/// What an event that brings more text does to the transcript.
pub proof fn delta_event_updates(e: JsonTree, delta: Seq<char>)
    requires
        is_delta_event(e, delta),
    ensures
        event_update(e) == Some(UpdateView::Delta(delta)),
{
    text_under_names(e->Object_0, delta);
}

/// What an event that brings the whole of what was said does to the transcript.
pub proof fn whole_event_updates(e: JsonTree, text: Seq<char>)
    requires
        is_whole_event(e, text),
    ensures
        event_update(e) == Some(UpdateView::Snapshot(text)),
{
    text_under_names(e->Object_0, text);
    ends_are_no_deltas();
}

/// An event that brings more text and has no status does not say that the transcript is complete.
pub proof fn delta_without_status_is_no_end(e: JsonTree, delta: Seq<char>)
    requires
        is_delta_event(e, delta),
        lookup(e->Object_0, "status"@) is None,
        lookup(e->Object_0, "response"@) is None,
    ensures
        !is_completion(e),
{
    deltas_are_no_ends();
    assert(is_delta_type(event_type(e)->0));
}

proof fn first_text_at(
    s: Seq<(Seq<char>, JsonTree)>,
    names: Seq<Seq<char>>,
    k: int,
    v: JsonTree,
)
    requires
        0 <= k < names.len(),
        forall|j: int| 0 <= j < k ==> lookup(s, #[trigger] names[j]) is None,
        lookup(s, names[k]) == Some(v),
        value_text(v) is Some,
    ensures
        first_text(s, names) == value_text(v),
    decreases k,
{
    named_text_is_text_of_lookup(s, names[0]);
    if k > 0 {
        let rest = names.drop_first();
        assert(lookup(s, names[0]) is None);
        assert forall|j: int| 0 <= j < k - 1 implies lookup(s, #[trigger] rest[j]) is None by {
            assert(rest[j] == names[j + 1]);
        }
        assert(rest[k - 1] == names[k]);
        first_text_at(s, rest, k - 1, v);
    }
}

/// The text of an object is the text of what stands under the first of the names that it has among
/// those under which text is looked for, to any depth.
pub proof fn text_of_an_object(
    value: &Json,
    inner: &Json,
    s: Seq<(Seq<char>, JsonTree)>,
    k: int,
    r: Option<String>,
    text: Option<String>,
)
    requires
        call_ensures(text_from_value, (value,), r),
        call_ensures(text_from_value, (inner,), text),
        value@ == JsonTree::Object(s),
        ({
            let names = seq![
                "text"@,
                "transcript"@,
                "delta"@,
                "value"@,
                "partial"@,
                "content"@,
                "parts"@,
                "item"@,
                "response"@,
                "output"@,
                "output_text"@,
                "message"@,
            ];
            &&& 0 <= k < names.len()
            &&& forall|j: int| 0 <= j < k ==> lookup(s, #[trigger] names[j]) is None
            &&& lookup(s, names[k]) == Some(inner@)
        }),
        text is Some,
    ensures
        r is Some,
        r->0@ == text->0@,
{
    first_text_at(s, preferred_names(), k, inner@);
}

/// What an event brings is the text of what stands under the first of the names that it has among
/// those under which events bring text, to any depth: to be added where the type is one of those
/// that bring more, and else as the whole.
pub proof fn event_brings_the_text_in_it(
    event: &Json,
    inner: &Json,
    s: Seq<(Seq<char>, JsonTree)>,
    k: int,
    r: Option<TranscriptUpdate>,
    text: Option<String>,
)
    requires
        call_ensures(transcript_update_from_event, (event,), r),
        call_ensures(text_from_value, (inner,), text),
        event@ == JsonTree::Object(s),
        ({
            let names = seq![
                "delta"@,
                "text"@,
                "transcript"@,
                "transcription"@,
                "part"@,
                "item"@,
                "response"@,
            ];
            &&& 0 <= k < names.len()
            &&& forall|j: int| 0 <= j < k ==> lookup(s, #[trigger] names[j]) is None
            &&& lookup(s, names[k]) == Some(inner@)
        }),
        text is Some,
    ensures
        r is Some,
        r->0 is Delta <==> {
            ||| lookup(s, "type"@) == Some(JsonTree::Text("response.output_text.delta"@))
            ||| lookup(s, "type"@) == Some(JsonTree::Text("response.audio_transcript.delta"@))
            ||| lookup(s, "type"@) == Some(JsonTree::Text("response.text.delta"@))
            ||| lookup(s, "type"@) == Some(
                JsonTree::Text("conversation.item.input_audio_transcription.delta"@),
            )
            ||| lookup(s, "type"@) == Some(
                JsonTree::Text("conversation.item.input_audio_transcription.partial"@),
            )
            ||| lookup(s, "type"@) == Some(JsonTree::Text("transcription.delta"@))
            ||| lookup(s, "type"@) == Some(JsonTree::Text("response.content_part.added"@))
        },
        r->0 is Delta ==> r->0->Delta_0@ == text->0@,
        r->0 is Snapshot ==> r->0->Snapshot_0@ == text->0@,
{
    first_text_at(s, event_names(), k, inner@);
}

/// The notes of an event have its text where it is short, and else its first 160 characters; of an
/// event on transcription they have the event itself, cut to 380 characters.
pub proof fn notes_have_the_text(
    event: &Json,
    kind: &str,
    delta: Seq<char>,
    ink: Seq<char>,
    fragment: Option<String>,
    excerpt: Option<String>,
    whole: String,
)
    requires
        call_ensures(event_text_fragment, (event,), fragment),
        call_ensures(event_raw_excerpt, (event, kind), excerpt),
        call_ensures(Json::to_text, (event,), whole),
        is_delta_event(event@, delta),
        is_ink_of(ink, delta),
    ensures
        fragment is Some,
        ink.len() <= 160 ==> fragment->0@ == ink,
        ink.len() > 160 ==> fragment->0@ == ink.take(160).push('…'),
        excerpt is Some <==> begins_with(kind@, "transcription"@) || kind@ == "error"@,
        excerpt is Some && is_ink_of(whole@, whole@) && whole@.len() <= 380 ==> excerpt->0@
            == whole@,
        excerpt is Some && is_ink_of(whole@, whole@) && whole@.len() > 380 ==> excerpt->0@
            == whole@.take(380).push('…'),
{
    first_text_at(event@->Object_0, event_names(), 0, JsonTree::Text(delta));
    ink_is_unique(ink, delta);
    if is_ink_of(whole@, whole@) {
        ink_is_unique(whole@, whole@);
    }
}

/// A status of an end, of an event of a response or of the response in an event, says that the
/// transcript is complete: it was completed, failed or was cancelled.
pub proof fn final_statuses_are_noticed(
    event: &Json,
    s: Seq<(Seq<char>, JsonTree)>,
    kind: Seq<char>,
    status: Seq<char>,
    response: Seq<(Seq<char>, JsonTree)>,
    r: bool,
)
    requires
        call_ensures(event_indicates_completion, (event,), r),
        event@ == JsonTree::Object(s),
        lookup(s, "type"@) == Some(JsonTree::Text(kind)),
        status == "completed"@ || status == "failed"@ || status == "cancelled"@,
        ({
            ||| begins_with(kind, "response."@) && lookup(s, "status"@) == Some(
                JsonTree::Text(status),
            )
            ||| lookup(s, "response"@) == Some(JsonTree::Object(response)) && lookup(
                response,
                "status"@,
            ) == Some(JsonTree::Text(status))
        }),
    ensures
        r,
{
}

/// Where the error of an event does not name its event, or where there is no error of its own, what
/// stands in the event itself is told.
pub proof fn errors_in_the_event_are_told(
    event: &Json,
    s: Seq<(Seq<char>, JsonTree)>,
    error: Seq<(Seq<char>, JsonTree)>,
    text: Seq<char>,
    r: EventError,
)
    requires
        call_ensures(event_error_metadata, (event,), r),
        event@ == JsonTree::Object(s),
    ensures
        lookup(s, "error"@) == Some(JsonTree::Object(error)) && lookup(error, "event_id"@) == Some(
            JsonTree::Text(text),
        ) ==> r.event_id is Some && r.event_id->0@ == text,
        lookup(s, "error"@) is None && lookup(s, "event_id"@) == Some(JsonTree::Text(text))
            ==> r.event_id is Some && r.event_id->0@ == text,
        lookup(s, "error"@) is None && lookup(s, "code"@) == Some(JsonTree::Text(text))
            ==> r.code is Some && r.code->0@ == text,
        lookup(s, "error"@) == Some(JsonTree::Text(text)) ==> r.message is Some && r.message->0@
            == text,
        lookup(s, "error"@) is None && lookup(s, "message"@) == Some(JsonTree::Text(text))
            ==> r.message is Some && r.message->0@ == text,
        lookup(s, "error"@) is None && lookup(s, "code"@) is None && lookup(s, "message"@) is None
            ==> r.code is None && r.message is None,
{
}

} // verus!
