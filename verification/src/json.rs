//! JSON values as plain data, and the bridge to `serde_json`.
use vstd::prelude::*;

use crate::fields::{
    lookup, lookup_of_mapped, mapped, named, ordered, position_of, put, put_entry, put_keeps_order,
    put_of_mapped, slot, slot_bounds,
};

verus! {

/// The numbers of `serde_json`, which are carried through unread.
#[verifier::external_type_specification]
#[verifier::external_body]
pub struct ExNumber(serde_json::Number);

/// The values of `serde_json`.
#[verifier::external_type_specification]
#[verifier::external_body]
pub struct ExSerdeValue(serde_json::Value);

/// What a JSON value is: its kind and its parts.
pub enum JsonTree {
    Null,
    Bool(bool),
    Number(serde_json::Number),
    Text(Seq<char>),
    Array(Seq<JsonTree>),
    Object(Seq<(Seq<char>, JsonTree)>),
}

/// A JSON value. The fields of an object stand in the order of their names.
pub enum Json {
    Null,
    Bool(bool),
    Number(serde_json::Number),
    String(String),
    Array(Vec<Json>),
    Object(Vec<(String, Json)>),
}

/// The tree of a JSON value.
pub open spec fn tree_of(j: Json) -> JsonTree
    decreases j,
{
    match j {
        Json::Null => JsonTree::Null,
        Json::Bool(b) => JsonTree::Bool(b),
        Json::Number(n) => JsonTree::Number(n),
        Json::String(s) => JsonTree::Text(s@),
        Json::Array(v) => JsonTree::Array(
            Seq::new(
                v@.len(),
                |i: int|
                    if 0 <= i < v@.len() {
                        tree_of(v@[i])
                    } else {
                        JsonTree::Null
                    },
            ),
        ),
        Json::Object(v) => JsonTree::Object(
            Seq::new(
                v@.len(),
                |i: int|
                    (
                        v@[i].0@,
                        if 0 <= i < v@.len() {
                            tree_of(v@[i].1)
                        } else {
                            JsonTree::Null
                        },
                    ),
            ),
        ),
    }
}

impl View for Json {
    type V = JsonTree;

    open spec fn view(&self) -> JsonTree {
        tree_of(*self)
    }
}

/// The trees of the items of an array.
pub open spec fn item_trees(s: Seq<Json>) -> Seq<JsonTree> {
    Seq::new(s.len(), |i: int| s[i]@)
}

/// The trees of the fields of an object.
pub open spec fn field_trees(s: Seq<(String, Json)>) -> Seq<(Seq<char>, JsonTree)> {
    Seq::new(s.len(), |i: int| (s[i].0@, s[i].1@))
}

/// The tree of an array holds the trees of its items.
pub proof fn array_view(v: Vec<Json>)
    ensures
        Json::Array(v)@ == JsonTree::Array(item_trees(v@)),
{
    assert(Json::Array(v)@->Array_0 =~= item_trees(v@));
}

/// The tree of an object holds the trees of its fields.
pub proof fn object_view(v: Vec<(String, Json)>)
    ensures
        Json::Object(v)@ == JsonTree::Object(field_trees(v@)),
{
    let shown = Json::Object(v)@->Object_0;
    assert forall|i: int| 0 <= i < v@.len() implies #[trigger] shown[i] == (v@[i].0@, v@[i].1@) by {}
    assert(shown =~= field_trees(v@));
}

/// Whether the fields of every object in the tree stand in the order of their names.
pub open spec fn tidy(t: JsonTree) -> bool
    decreases t,
{
    match t {
        JsonTree::Array(s) => forall|i: int| 0 <= i < s.len() ==> tidy(#[trigger] s[i]),
        JsonTree::Object(s) => ordered(s) && forall|i: int|
            0 <= i < s.len() ==> tidy((#[trigger] s[i]).1),
        _ => true,
    }
}

/// The field of an object under the name `k`.
pub open spec fn field(t: JsonTree, k: Seq<char>) -> Option<JsonTree> {
    match t {
        JsonTree::Object(s) => lookup(s, k),
        _ => None,
    }
}

/// The characters of a text.
pub open spec fn text_in(t: JsonTree) -> Option<Seq<char>> {
    match t {
        JsonTree::Text(s) => Some(s),
        _ => None,
    }
}

/// The characters of the text under the name `k`.
pub open spec fn text_field(t: JsonTree, k: Seq<char>) -> Option<Seq<char>> {
    match field(t, k) {
        Some(v) => text_in(v),
        None => None,
    }
}

/// The items of an array.
pub open spec fn items_in(t: JsonTree) -> Option<Seq<JsonTree>> {
    match t {
        JsonTree::Array(s) => Some(s),
        _ => None,
    }
}

/// An object without fields.
pub open spec fn no_fields() -> Seq<(Seq<char>, JsonTree)> {
    Seq::empty()
}

// ---------------------------------------------------------------------------------------------
// The bridge to serde_json
// ---------------------------------------------------------------------------------------------

/// What a `serde_json::Value` holds.
pub uninterp spec fn json_tree(v: serde_json::Value) -> JsonTree;

/// The value that `serde_json::from_str` reads from a text, where it reads one.
pub uninterp spec fn json_parsed(text: Seq<char>) -> Option<JsonTree>;

/// The message of the failure with which `serde_json::from_str` refuses a text.
pub uninterp spec fn json_problem(text: Seq<char>) -> Seq<char>;

/// The value that `serde_json::from_slice` reads from bytes, where it reads one.
pub uninterp spec fn json_decoded(bytes: Seq<u8>) -> Option<JsonTree>;

/// The message of the failure with which `serde_json::from_slice` refuses bytes.
pub uninterp spec fn json_undecoded(bytes: Seq<u8>) -> Seq<char>;

/// The text that `serde_json::Value::to_string` writes for a value.
pub uninterp spec fn json_text(t: JsonTree) -> Seq<char>;

/// The text that `serde_json::to_string_pretty` writes for a value.
pub uninterp spec fn json_pretty(t: JsonTree) -> Seq<char>;

/// What `serde_json::Number::as_i64` gives for a number.
pub uninterp spec fn number_i64(n: serde_json::Number) -> Option<i64>;

/// The number that `serde_json::Number::from` makes of an unsigned integer.
pub uninterp spec fn number_of(n: u64) -> serde_json::Number;

/// One level of a `serde_json::Value`.
pub enum JsonLevel {
    Null,
    Bool(bool),
    Number(serde_json::Number),
    String(String),
    Array(Vec<serde_json::Value>),
    Object(Vec<(String, serde_json::Value)>),
}

/// The trees of values.
pub open spec fn value_trees(s: Seq<serde_json::Value>) -> Seq<JsonTree> {
    Seq::new(s.len(), |i: int| json_tree(s[i]))
}

/// The trees of named values.
pub open spec fn value_field_trees(s: Seq<(String, serde_json::Value)>) -> Seq<
    (Seq<char>, JsonTree),
> {
    Seq::new(s.len(), |i: int| (s[i].0@, json_tree(s[i].1)))
}

/// The tree of one level and what lies under it.
pub open spec fn level_tree(l: JsonLevel) -> JsonTree {
    match l {
        JsonLevel::Null => JsonTree::Null,
        JsonLevel::Bool(b) => JsonTree::Bool(b),
        JsonLevel::Number(n) => JsonTree::Number(n),
        JsonLevel::String(s) => JsonTree::Text(s@),
        JsonLevel::Array(v) => JsonTree::Array(value_trees(v@)),
        JsonLevel::Object(v) => JsonTree::Object(value_field_trees(v@)),
    }
}

/// Whether the names on one level stand in order.
pub open spec fn level_in_order(l: JsonLevel) -> bool {
    match l {
        JsonLevel::Object(v) => ordered(value_field_trees(v@)),
        _ => true,
    }
}

/// Takes one level off a `serde_json::Value`.
///
/// Trusted: the variants of `serde_json::Value`, whose objects are maps that hand their entries
/// out in the order of the names, each name once.
#[verifier::external_body]
fn open_value(v: serde_json::Value) -> (r: JsonLevel)
    ensures
        level_tree(r) == json_tree(v),
        level_in_order(r),
{
    match v {
        serde_json::Value::Null => JsonLevel::Null,
        serde_json::Value::Bool(b) => JsonLevel::Bool(b),
        serde_json::Value::Number(n) => JsonLevel::Number(n),
        serde_json::Value::String(s) => JsonLevel::String(s),
        serde_json::Value::Array(items) => JsonLevel::Array(items),
        serde_json::Value::Object(map) => JsonLevel::Object(map.into_iter().collect()),
    }
}

/// Puts one level onto `serde_json::Value`s.
///
/// Trusted: the variants of `serde_json::Value`, whose objects are maps that keep their entries
/// in the order of the names.
#[verifier::external_body]
fn close_value(l: JsonLevel) -> (r: serde_json::Value)
    requires
        level_in_order(l),
    ensures
        json_tree(r) == level_tree(l),
{
    match l {
        JsonLevel::Null => serde_json::Value::Null,
        JsonLevel::Bool(b) => serde_json::Value::Bool(b),
        JsonLevel::Number(n) => serde_json::Value::Number(n),
        JsonLevel::String(s) => serde_json::Value::String(s),
        JsonLevel::Array(items) => serde_json::Value::Array(items),
        JsonLevel::Object(fields) => serde_json::Value::Object(fields.into_iter().collect()),
    }
}

/// Reads a text.
///
/// Trusted: `serde_json::from_str`, whose outcome, the message of its failure too, is a function of
/// the text.
#[verifier::external_body]
fn read_value(text: &str) -> (r: Result<serde_json::Value, String>)
    ensures
        match r {
            Ok(v) => json_parsed(text@) == Some(json_tree(v)),
            Err(problem) => json_parsed(text@) is None && problem@ == json_problem(text@),
        },
{
    serde_json::from_str::<serde_json::Value>(text).map_err(|error| error.to_string())
}

/// Reads bytes.
///
/// Trusted: `serde_json::from_slice`, whose outcome, the message of its failure too, is a function
/// of the bytes.
#[verifier::external_body]
fn read_bytes(bytes: &Vec<u8>) -> (r: Result<serde_json::Value, String>)
    ensures
        match r {
            Ok(v) => json_decoded(bytes@) == Some(json_tree(v)),
            Err(problem) => json_decoded(bytes@) is None && problem@ == json_undecoded(bytes@),
        },
{
    serde_json::from_slice::<serde_json::Value>(bytes).map_err(|error| error.to_string())
}

/// Writes a value on one line.
///
/// Trusted: `to_string` of `serde_json::Value`, whose result is a function of what the value holds.
#[verifier::external_body]
fn write_value(v: &serde_json::Value) -> (s: String)
    ensures
        s@ == json_text(json_tree(*v)),
{
    v.to_string()
}

/// Writes a value over several lines.
///
/// Trusted: `serde_json::to_string_pretty`, whose result is a function of what the value holds. It
/// writes to memory, and names are texts, so that it does not fail on a `serde_json::Value`.
#[verifier::external_body]
fn write_value_pretty(v: &serde_json::Value) -> (s: String)
    ensures
        s@ == json_pretty(json_tree(*v)),
{
    serde_json::to_string_pretty(v).expect("a JSON value can be written")
}

/// The number as a signed integer.
///
/// Trusted: `serde_json::Number::as_i64`, whose result is a function of the number.
#[verifier::external_body]
fn signed_number(n: &serde_json::Number) -> (r: Option<i64>)
    ensures
        r == number_i64(*n),
{
    n.as_i64()
}

/// The number of an unsigned integer.
///
/// Trusted: `serde_json::Number::from` on an unsigned integer, which `as_i64` gives back where it
/// fits.
#[verifier::external_body]
fn make_number(n: u64) -> (r: serde_json::Number)
    ensures
        r == number_of(n),
        number_i64(r) == if n <= i64::MAX {
            Some(n as i64)
        } else {
            None
        },
{
    serde_json::Number::from(n)
}

/// A copy of a number.
///
/// Trusted: `clone` of `serde_json::Number` gives the same number.
#[verifier::external_body]
pub(crate) fn copy_number(n: &serde_json::Number) -> (r: serde_json::Number)
    ensures
        r == *n,
{
    n.clone()
}

fn from_value(v: serde_json::Value) -> (r: Json)
    ensures
        r@ == json_tree(v),
        tidy(r@),
    decreases json_tree(v),
{
    let ghost tree = json_tree(v);
    match open_value(v) {
        JsonLevel::Null => Json::Null,
        JsonLevel::Bool(b) => Json::Bool(b),
        JsonLevel::Number(n) => Json::Number(n),
        JsonLevel::String(s) => Json::String(s),
        JsonLevel::Array(items) => {
            assert(decreases_to!(tree => tree->Array_0));
            let out = Json::Array(from_values(items));
            assert(out@->Array_0 =~= tree->Array_0);
            out
        },
        JsonLevel::Object(fields) => {
            assert(decreases_to!(tree => tree->Object_0));
            let out = Json::Object(from_fields(fields));
            assert(out@->Object_0 =~= tree->Object_0);
            out
        },
    }
}

fn from_values(items: Vec<serde_json::Value>) -> (r: Vec<Json>)
    ensures
        item_trees(r@) == value_trees(items@),
        forall|i: int| 0 <= i < r@.len() ==> tidy((#[trigger] r@[i])@),
    decreases value_trees(items@),
{
    let ghost all = items@;
    let mut out: Vec<Json> = Vec::new();
    for item in it: items
        invariant
            it.seq() == all,
            all == items@,
            out@.len() == it.index(),
            forall|i: int|
                0 <= i < out@.len() ==> (#[trigger] out@[i])@ == json_tree(all[i]) && tidy(
                    out@[i]@,
                ),
    {
        assert(decreases_to!(value_trees(all) => value_trees(all)[it.index()]));
        out.push(from_value(item));
    }
    assert(item_trees(out@) =~= value_trees(all));
    out
}

fn from_fields(fields: Vec<(String, serde_json::Value)>) -> (r: Vec<(String, Json)>)
    ensures
        field_trees(r@) == value_field_trees(fields@),
        forall|i: int| 0 <= i < r@.len() ==> tidy((#[trigger] r@[i]).1@),
    decreases value_field_trees(fields@),
{
    let ghost all = fields@;
    let mut out: Vec<(String, Json)> = Vec::new();
    for item in it: fields
        invariant
            it.seq() == all,
            all == fields@,
            out@.len() == it.index(),
            forall|i: int|
                0 <= i < out@.len() ==> (#[trigger] out@[i]).0@ == all[i].0@ && out@[i].1@
                    == json_tree(all[i].1) && tidy(out@[i].1@),
    {
        let ghost pair = value_field_trees(all)[it.index()];
        assert(decreases_to!(value_field_trees(all) => pair));
        assert(decreases_to!(pair => pair.1));
        let (name, value) = item;
        out.push((name, from_value(value)));
    }
    assert(field_trees(out@) =~= value_field_trees(all));
    out
}

fn to_value(j: &Json) -> (r: serde_json::Value)
    requires
        tidy(j@),
    ensures
        json_tree(r) == j@,
    decreases j,
{
    match j {
        Json::Null => close_value(JsonLevel::Null),
        Json::Bool(b) => close_value(JsonLevel::Bool(*b)),
        Json::Number(n) => close_value(JsonLevel::Number(copy_number(n))),
        Json::String(s) => close_value(JsonLevel::String(s.clone())),
        Json::Array(items) => {
            let mut out: Vec<serde_json::Value> = Vec::new();
            let mut i: usize = 0;
            proof {
                array_view(*items);
            }
            while i < items.len()
                invariant
                    j is Array,
                    j->Array_0 == *items,
                    i == out@.len(),
                    i <= items@.len(),
                    tidy(JsonTree::Array(item_trees(items@))),
                    value_trees(out@) == item_trees(items@).take(i as int),
                decreases items@.len() - i,
            {
                let ghost tree = JsonTree::Array(item_trees(items@));
                assert(tidy(tree->Array_0[i as int]));
                let ghost done = value_trees(out@);
                assert(decreases_to!(j => items@[i as int]));
                let v = to_value(&items[i]);
                out.push(v);
                assert(value_trees(out@) =~= done.push(json_tree(v)));
                assert(item_trees(items@).take(i + 1) =~= done.push(items@[i as int]@));
                i = i + 1;
            }
            assert(item_trees(items@).take(i as int) =~= item_trees(items@));
            close_value(JsonLevel::Array(out))
        },
        Json::Object(fields) => {
            let mut out: Vec<(String, serde_json::Value)> = Vec::new();
            let mut i: usize = 0;
            proof {
                object_view(*fields);
            }
            while i < fields.len()
                invariant
                    j is Object,
                    j->Object_0 == *fields,
                    i == out@.len(),
                    i <= fields@.len(),
                    tidy(JsonTree::Object(field_trees(fields@))),
                    value_field_trees(out@) == field_trees(fields@).take(i as int),
                decreases fields@.len() - i,
            {
                assert(tidy(field_trees(fields@)[i as int].1));
                let ghost done = value_field_trees(out@);
                assert(decreases_to!(j => fields@[i as int].1));
                let v = to_value(&fields[i].1);
                let name = fields[i].0.clone();
                out.push((name, v));
                assert(value_field_trees(out@) =~= done.push((name@, json_tree(v))));
                assert(field_trees(fields@).take(i + 1) =~= done.push((name@, json_tree(v))));
                i = i + 1;
            }
            assert(field_trees(fields@).take(i as int) =~= field_trees(fields@));
            close_value(JsonLevel::Object(out))
        },
    }
}

impl Json {
    /// Reads a JSON text, or says what is wrong with it.
    pub fn parse(text: &str) -> (r: Result<Json, String>)
        ensures
            match r {
                Ok(j) => json_parsed(text@) == Some(j@) && tidy(j@),
                Err(problem) => json_parsed(text@) is None && problem@ == json_problem(text@),
            },
    {
        match read_value(text) {
            Ok(v) => Ok(from_value(v)),
            Err(problem) => Err(problem),
        }
    }

    /// Reads the bytes of a JSON text, or says what is wrong with them.
    pub fn parse_bytes(bytes: &Vec<u8>) -> (r: Result<Json, String>)
        ensures
            match r {
                Ok(j) => json_decoded(bytes@) == Some(j@) && tidy(j@),
                Err(problem) => json_decoded(bytes@) is None && problem@ == json_undecoded(bytes@),
            },
    {
        match read_bytes(bytes) {
            Ok(v) => Ok(from_value(v)),
            Err(problem) => Err(problem),
        }
    }

    /// The value as JSON text on one line.
    pub fn to_text(&self) -> (s: String)
        requires
            tidy(self@),
        ensures
            s@ == json_text(self@),
    {
        write_value(&to_value(self))
    }

    /// The value as JSON text over several lines.
    pub fn to_pretty(&self) -> (s: String)
        requires
            tidy(self@),
        ensures
            s@ == json_pretty(self@),
    {
        write_value_pretty(&to_value(self))
    }

    /// A text value.
    pub fn text(s: &str) -> (j: Json)
        ensures
            j@ == JsonTree::Text(s@),
            tidy(j@),
    {
        Json::String(s.to_string())
    }

    /// A text value, or null where there is no text.
    pub fn text_or_null(s: Option<&str>) -> (j: Json)
        ensures
            j@ == match s {
                Some(s) => JsonTree::Text(s@),
                None => JsonTree::Null,
            },
            tidy(j@),
    {
        match s {
            Some(s) => Json::text(s),
            None => Json::Null,
        }
    }

    /// An unsigned integer.
    pub fn number(n: u64) -> (j: Json)
        ensures
            j@ == JsonTree::Number(number_of(n)),
            tidy(j@),
    {
        Json::Number(make_number(n))
    }

    /// An object without fields.
    pub fn object() -> (j: Json)
        ensures
            j@ == JsonTree::Object(no_fields()),
            tidy(j@),
    {
        let fields: Vec<(String, Json)> = Vec::new();
        proof {
            object_view(fields);
            assert(field_trees(fields@) =~= no_fields());
        }
        Json::Object(fields)
    }

    /// The object with `value` under the name `k`.
    pub fn with(self, k: &str, value: Json) -> (j: Json)
        requires
            self@ is Object,
            tidy(self@),
            tidy(value@),
        ensures
            j@ == JsonTree::Object(put(self@->Object_0, k@, value@)),
            tidy(j@),
    {
        match self {
            Json::Object(fields) => {
                let mut fields = fields;
                let ghost all = field_trees(fields@);
                let ghost tree = value@;
                proof {
                    object_view(fields);
                    assert(all =~= mapped(named(fields@), |j: Json| j@));
                    put_of_mapped(named(fields@), |j: Json| j@, k@, value);
                    put_keeps_order(all, k@, tree);
                    slot_bounds(all, k@);
                }
                put_entry(&mut fields, k, value);
                proof {
                    let done = put(all, k@, tree);
                    object_view(fields);
                    assert(field_trees(fields@) =~= mapped(named(fields@), |j: Json| j@));
                    let i = slot(all, k@);
                    assert forall|n: int| 0 <= n < done.len() implies tidy((#[trigger] done[n]).1) by {
                        if n == i {
                        } else if n < i || done.len() == all.len() {
                            assert(tidy(all[n].1));
                        } else {
                            assert(tidy(all[n - 1].1));
                        }
                    }
                }
                Json::Object(fields)
            },
            _ => self,
        }
    }

    /// The field under the name `k`; nothing where this is no object or holds no such field.
    pub fn get(&self, k: &str) -> (r: Option<&Json>)
        ensures
            match r {
                Some(v) => field(self@, k@) == Some(v@),
                None => field(self@, k@) is None,
            },
            tidy(self@) && r is Some ==> tidy(r->0@),
    {
        match self {
            Json::Object(fields) => {
                proof {
                    object_view(*fields);
                    assert(field_trees(fields@) =~= mapped(named(fields@), |j: Json| j@));
                    lookup_of_mapped(named(fields@), |j: Json| j@, k@);
                }
                match position_of(fields, k) {
                    Some(i) => {
                        assert(field_trees(fields@)[i as int].1 == fields@[i as int].1@);
                        Some(&fields[i].1)
                    },
                    None => None,
                }
            },
            _ => None,
        }
    }

    /// The characters of a text.
    pub fn as_str(&self) -> (r: Option<&str>)
        ensures
            match r {
                Some(s) => text_in(self@) == Some(s@),
                None => text_in(self@) is None,
            },
    {
        match self {
            Json::String(s) => Some(s.as_str()),
            _ => None,
        }
    }

    /// The characters of the text under the name `k`.
    pub fn get_str(&self, k: &str) -> (r: Option<&str>)
        ensures
            match r {
                Some(s) => text_field(self@, k@) == Some(s@),
                None => text_field(self@, k@) is None,
            },
    {
        match self.get(k) {
            Some(v) => v.as_str(),
            None => None,
        }
    }

    /// The items of an array.
    pub fn as_array(&self) -> (r: Option<&Vec<Json>>)
        ensures
            match r {
                Some(v) => items_in(self@) == Some(item_trees(v@)),
                None => items_in(self@) is None,
            },
    {
        match self {
            Json::Array(v) => {
                proof {
                    array_view(*v);
                }
                Some(v)
            },
            _ => None,
        }
    }

    /// The truth value.
    pub fn as_bool(&self) -> (r: Option<bool>)
        ensures
            r == match self@ {
                JsonTree::Bool(b) => Some(b),
                _ => None,
            },
    {
        match self {
            Json::Bool(b) => Some(*b),
            _ => None,
        }
    }

    /// The signed integer.
    pub fn as_i64(&self) -> (r: Option<i64>)
        ensures
            r == match self@ {
                JsonTree::Number(n) => number_i64(n),
                _ => None,
            },
    {
        match self {
            Json::Number(n) => signed_number(n),
            _ => None,
        }
    }
}

} // verus!
