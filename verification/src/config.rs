//! The configuration: a tree of named values that is read and changed by dotted keys.
use vstd::prelude::*;

use crate::error::{fails_from, fails_with, Error};
use crate::fields::{
    before, before_is_irreflexive, lookup, lookup_after_put, lookup_after_put_elsewhere,
    lookup_after_without, lookup_after_without_elsewhere, lookup_in_slot, lookup_is_first,
    lookup_of_mapped, lookups_after_put, mapped, named, order_of_mapped, ordered, position_of, put,
    put_after_without, put_entry, put_keeps_order, put_of_mapped, slot, slot_bounds, take_entry,
    without, without_keeps_order, without_of_mapped,
};
use crate::json::{
    array_view, field_trees, item_trees, json_parsed, json_problem, number_i64, object_view, tidy,
    Json, JsonTree,
};
use crate::text::{
    given, given_text, ink_is_unique, is_ink_of, is_white_char, join_path, joined_path, pieces,
    pieces_is_not_empty, pieces_of_parts, pieces_without_separator, split, tight_text_stays, trim,
    trimmed, trimmed_end_is_tight, trimmed_start, trimmed_start_is_tight, views,
};

verus! {

/// The values of `toml`.
#[verifier::external_type_specification]
#[verifier::external_body]
pub struct ExTomlValue(toml::Value);

/// The dates of `toml`.
#[verifier::external_type_specification]
#[verifier::external_body]
pub struct ExTomlDatetime(toml::value::Datetime);

/// How a time of day lies to universal time.
#[derive(Debug, Clone, Copy)]
pub enum UtcOffset {
    /// It is universal time.
    Zulu,
    /// It is so many minutes ahead.
    Minutes(i16),
}

/// A date, a time of day, or both.
#[derive(Debug, Clone, Copy)]
pub struct DateTime {
    /// Year, month and day.
    pub date: Option<(u16, u8, u8)>,
    /// Hour, minute, second and nanosecond.
    pub time: Option<(u8, u8, u8, u32)>,
    pub offset: Option<UtcOffset>,
}

/// How many days a month has.
pub open spec fn days_in(year: int, month: int) -> int {
    if month == 2 {
        if year % 4 == 0 && (year % 100 != 0 || year % 400 == 0) {
            29
        } else {
            28
        }
    } else if month == 4 || month == 6 || month == 9 || month == 11 {
        30
    } else {
        31
    }
}

/// Whether the parts are those of a date, a time of day, or both: each lies in its range, and only
/// a date with a time has an offset.
pub open spec fn is_date_time(d: DateTime) -> bool {
    &&& d.date is Some || d.time is Some
    &&& match d.date {
        Some((year, month, day)) => year <= 9999 && 1 <= month <= 12 && 1 <= day <= days_in(
            year as int,
            month as int,
        ),
        None => true,
    }
    &&& match d.time {
        Some((hour, minute, second, nanosecond)) => hour <= 23 && minute <= 59 && second <= 60
            && nanosecond <= 999_999_999,
        None => true,
    }
    &&& match d.offset {
        Some(offset) => d.date is Some && d.time is Some && match offset {
            UtcOffset::Zulu => true,
            UtcOffset::Minutes(minutes) => -1440 < minutes < 1440,
        },
        None => true,
    }
}

/// What a configuration value is: its kind and its parts.
pub enum Tree {
    Text(Seq<char>),
    Integer(i64),
    Boolean(bool),
    Array(Seq<Tree>),
    Table(Seq<(Seq<char>, Tree)>),
    /// A floating-point number, which nothing here reads.
    Float(toml::Value),
    Date(DateTime),
}

/// A configuration value. The entries of a table stand in the order of their names.
pub enum ConfigValue {
    String(String),
    Integer(i64),
    Boolean(bool),
    Array(Vec<ConfigValue>),
    Table(Vec<(String, ConfigValue)>),
    /// A floating-point number, which nothing here reads.
    Float(toml::Value),
    Date(DateTime),
}

/// The tree of a configuration value.
pub open spec fn tree_of(v: ConfigValue) -> Tree
    decreases v,
{
    match v {
        ConfigValue::String(s) => Tree::Text(s@),
        ConfigValue::Integer(i) => Tree::Integer(i),
        ConfigValue::Boolean(b) => Tree::Boolean(b),
        ConfigValue::Array(items) => Tree::Array(
            Seq::new(
                items@.len(),
                |i: int|
                    if 0 <= i < items@.len() {
                        tree_of(items@[i])
                    } else {
                        Tree::Boolean(false)
                    },
            ),
        ),
        ConfigValue::Table(entries) => Tree::Table(
            Seq::new(
                entries@.len(),
                |i: int|
                    (
                        entries@[i].0@,
                        if 0 <= i < entries@.len() {
                            tree_of(entries@[i].1)
                        } else {
                            Tree::Boolean(false)
                        },
                    ),
            ),
        ),
        ConfigValue::Float(n) => Tree::Float(n),
        ConfigValue::Date(d) => Tree::Date(d),
    }
}

impl View for ConfigValue {
    type V = Tree;

    open spec fn view(&self) -> Tree {
        tree_of(*self)
    }
}

/// The trees of the items of an array.
pub open spec fn value_items(s: Seq<ConfigValue>) -> Seq<Tree> {
    Seq::new(s.len(), |i: int| s[i]@)
}

/// The trees of the entries of a table.
pub open spec fn value_entries(s: Seq<(String, ConfigValue)>) -> Seq<(Seq<char>, Tree)> {
    Seq::new(s.len(), |i: int| (s[i].0@, s[i].1@))
}

/// The tree of an array holds the trees of its items.
pub proof fn value_array_view(v: Vec<ConfigValue>)
    ensures
        ConfigValue::Array(v)@ == Tree::Array(value_items(v@)),
{
    assert(ConfigValue::Array(v)@->Array_0 =~= value_items(v@));
}

/// The tree of a table holds the trees of its entries.
pub proof fn value_table_view(v: Vec<(String, ConfigValue)>)
    ensures
        ConfigValue::Table(v)@ == Tree::Table(value_entries(v@)),
        value_entries(v@) == mapped(named(v@), |x: ConfigValue| x@),
{
    assert(ConfigValue::Table(v)@->Table_0 =~= value_entries(v@));
    assert(value_entries(v@) =~= mapped(named(v@), |x: ConfigValue| x@));
}

/// Whether the entries of every table in the tree stand in the order of their names, only a
/// floating-point number is left in the form of `toml`, and every date is one.
pub open spec fn well_formed(t: Tree) -> bool
    decreases t,
{
    match t {
        Tree::Array(s) => forall|i: int| 0 <= i < s.len() ==> well_formed(#[trigger] s[i]),
        Tree::Table(s) => ordered(s) && forall|i: int|
            0 <= i < s.len() ==> well_formed((#[trigger] s[i]).1),
        Tree::Float(n) => toml_tree(n) == t,
        Tree::Date(d) => is_date_time(d),
        _ => true,
    }
}

// ---------------------------------------------------------------------------------------------
// Keys
// ---------------------------------------------------------------------------------------------

/// The parts that are not empty once they are trimmed.
pub open spec fn clean(parts: Seq<Seq<char>>) -> Seq<Seq<char>>
    decreases parts.len(),
{
    if parts.len() == 0 {
        Seq::empty()
    } else {
        let last = trimmed(parts.last());
        if last.len() == 0 {
            clean(parts.drop_last())
        } else {
            clean(parts.drop_last()).push(last)
        }
    }
}

/// The names that a dotted key goes through.
pub open spec fn key_path(key: Seq<char>) -> Seq<Seq<char>> {
    clean(pieces(key, '.'))
}

/// What is said of a key without a name in it.
pub open spec fn empty_key_message() -> Seq<char> {
    "config key cannot be empty"@
}

/// The names that a dotted key goes through; a failure where there is none.
pub fn key_parts(key: &str) -> (r: Result<Vec<String>, Error>)
    ensures
        match r {
            Ok(parts) => views(parts@) == key_path(key@) && parts@.len() > 0,
            Err(_) => key_path(key@).len() == 0 && fails_with(r, empty_key_message()),
        },
{
    let all = split(key, '.');
    let mut parts: Vec<String> = Vec::new();
    let mut i: usize = 0;
    let ghost seen = views(all@);
    assert(seen.take(0) == Seq::<Seq<char>>::empty());
    assert(views(parts@) =~= clean(seen.take(0)));
    while i < all.len()
        invariant
            seen == views(all@),
            i <= all@.len(),
            views(parts@) == clean(seen.take(i as int)),
        decreases all@.len() - i,
    {
        let ghost done = views(parts@);
        assert(seen.take(i + 1).drop_last() =~= seen.take(i as int));
        let part = trim(all[i].as_str());
        if !part.is_empty() {
            parts.push(part.to_string());
            assert(views(parts@) =~= done.push(part@));
        }
        i = i + 1;
    }
    assert(seen.take(i as int) =~= seen);
    if parts.len() == 0 {
        return Err(Error::new("config key cannot be empty"));
    }
    Ok(parts)
}

/// Whether some character in the text is not white space.
pub open spec fn has_ink(s: Seq<char>) -> bool {
    exists|i: int| 0 <= i < s.len() && !is_white_char(#[trigger] s[i])
}

/// A text with a character that is not white space has something left once it is trimmed.
proof fn ink_survives_trimming(s: Seq<char>)
    requires
        has_ink(s),
    ensures
        trimmed(s).len() > 0,
{
    let i = choose|i: int| 0 <= i < s.len() && !is_white_char(#[trigger] s[i]);
    trimmed_start_is_tight(s);
    let t = trimmed_start(s);
    let cut = s.len() - t.len();
    assert(cut <= i);
    assert(t[i - cut] == s[i]);
    trimmed_end_is_tight(t);
}

/// A character that is neither a dot nor white space is in one of the pieces.
proof fn ink_is_in_a_piece(s: Seq<char>, i: int)
    requires
        0 <= i < s.len(),
        s[i] != '.',
        !is_white_char(s[i]),
    ensures
        exists|j: int| 0 <= j < pieces(s, '.').len() && has_ink(#[trigger] pieces(s, '.')[j]),
    decreases s.len(),
{
    let head = s.drop_last();
    let before = pieces(head, '.');
    let all = pieces(s, '.');
    pieces_is_not_empty(head, '.');
    if i == s.len() - 1 {
        let last = all.last();
        assert(last == before.last().push(s.last()));
        assert(!is_white_char(last[last.len() - 1]));
        assert(has_ink(all[all.len() - 1]));
    } else {
        assert(head[i] == s[i]);
        ink_is_in_a_piece(head, i);
        let j = choose|j: int| 0 <= j < before.len() && has_ink(#[trigger] before[j]);
        let n = choose|n: int| 0 <= n < before[j].len() && !is_white_char(#[trigger] before[j][n]);
        assert(all[j][n] == before[j][n]);
        assert(has_ink(all[j]));
    }
}

proof fn ink_survives_cleaning(parts: Seq<Seq<char>>, j: int)
    requires
        0 <= j < parts.len(),
        has_ink(parts[j]),
    ensures
        clean(parts).len() > 0,
    decreases parts.len(),
{
    if j == parts.len() - 1 {
        ink_survives_trimming(parts[j]);
    } else {
        ink_survives_cleaning(parts.drop_last(), j);
    }
}

/// A key with anything in it besides dots and white space names a value.
pub proof fn key_with_a_name(key: Seq<char>, i: int)
    requires
        0 <= i < key.len(),
        key[i] != '.',
        !is_white_char(key[i]),
    ensures
        key_path(key).len() > 0,
{
    ink_is_in_a_piece(key, i);
    let all = pieces(key, '.');
    let j = choose|j: int| 0 <= j < all.len() && has_ink(#[trigger] all[j]);
    ink_survives_cleaning(all, j);
}

/// Cleaning parts one after the other.
proof fn clean_of_parts(a: Seq<Seq<char>>, b: Seq<Seq<char>>)
    ensures
        clean(a + b) == clean(a) + clean(b),
    decreases b.len(),
{
    if b.len() == 0 {
        assert(a + b =~= a);
        assert(clean(a) + clean(b) =~= clean(a));
    } else {
        assert((a + b).drop_last() =~= a + b.drop_last());
        clean_of_parts(a, b.drop_last());
        assert(clean(a + b) =~= clean(a) + clean(b));
    }
}

/// Cleaning a single part.
proof fn clean_of_one(part: Seq<char>)
    ensures
        clean(seq![part]) == if trimmed(part).len() == 0 {
            Seq::<Seq<char>>::empty()
        } else {
            seq![trimmed(part)]
        },
{
    assert(seq![part].drop_last() =~= Seq::<Seq<char>>::empty());
    assert(clean(seq![part].drop_last()) =~= Seq::<Seq<char>>::empty());
    if trimmed(part).len() > 0 {
        assert(clean(seq![part]) =~= seq![trimmed(part)]);
    }
}

/// A key without dots is a name, trimmed.
pub proof fn key_without_dots(key: Seq<char>)
    requires
        !key.contains('.'),
        trimmed(key).len() > 0,
    ensures
        key_path(key) == seq![trimmed(key)],
{
    pieces_without_separator(key, '.');
    clean_of_one(key);
}

/// The names of a key that begins with a dotted prefix are those of the prefix and those of the
/// rest.
pub proof fn key_path_after_dot(prefix: Seq<char>, rest: Seq<char>)
    ensures
        key_path(prefix.push('.') + rest) == key_path(prefix) + key_path(rest),
{
    pieces_of_parts(prefix.push('.'), rest, '.');
    pieces_is_not_empty(rest, '.');
    assert(prefix.push('.').drop_last() =~= prefix);
    let front = pieces(prefix, '.');
    let back = pieces(rest, '.');
    assert(Seq::<char>::empty() + back[0] =~= back[0]);
    assert(front.push(Seq::empty()).drop_last() =~= front);
    assert(front + seq![back[0]] + back.skip(1) =~= front + back);
    clean_of_parts(front, back);
}

/// The first name of a key that begins with these characters, none of them a dot or white space,
/// begins with them too.
pub proof fn first_name_begins_with(start: Seq<char>, rest: Seq<char>)
    requires
        start.len() > 0,
        forall|i: int| 0 <= i < start.len() ==> #[trigger] start[i] != '.' && !is_white_char(start[i]),
    ensures
        key_path(start + rest).len() > 0,
        key_path(start + rest)[0].len() >= start.len(),
        key_path(start + rest)[0].take(start.len() as int) == start,
{
    pieces_without_separator(start, '.');
    pieces_of_parts(start, rest, '.');
    pieces_is_not_empty(rest, '.');
    let first = start + pieces(rest, '.')[0];
    let others = pieces(rest, '.').skip(1);
    let all = pieces(start + rest, '.');
    assert(all =~= seq![first] + others);
    assert(first[0] == start[0]);
    assert(trimmed_start(first) == first);
    trimmed_end_is_tight(first);
    let name = trimmed(first);
    assert(first[start.len() - 1] == start[start.len() - 1]);
    assert(name.len() >= start.len());
    assert(name.take(start.len() as int) =~= start);
    clean_of_parts(seq![first], others);
    clean_of_one(first);
}

// ---------------------------------------------------------------------------------------------
// Reading and changing by path
// ---------------------------------------------------------------------------------------------

/// What stands at the end of a path.
pub open spec fn at_path(t: Tree, path: Seq<Seq<char>>) -> Option<Tree>
    decreases path.len(),
{
    if path.len() == 0 {
        Some(t)
    } else {
        match t {
            Tree::Table(s) => match lookup(s, path[0]) {
                Some(child) => at_path(child, path.drop_first()),
                None => None,
            },
            _ => None,
        }
    }
}

/// The entries of a table; none where the tree is no table.
pub open spec fn entries_of(t: Tree) -> Seq<(Seq<char>, Tree)> {
    match t {
        Tree::Table(s) => s,
        _ => Seq::empty(),
    }
}

/// The tree with `v` at the end of a path. What stands on the way and is no table makes room for
/// one.
pub open spec fn with_path(t: Tree, path: Seq<Seq<char>>, v: Tree) -> Tree
    decreases path.len(),
{
    if path.len() == 0 {
        v
    } else {
        let s = entries_of(t);
        let child = match lookup(s, path[0]) {
            Some(child) => child,
            None => Tree::Table(Seq::empty()),
        };
        Tree::Table(put(s, path[0], with_path(child, path.drop_first(), v)))
    }
}

/// The tree without what stands at the end of a path.
pub open spec fn without_path(t: Tree, path: Seq<Seq<char>>) -> Tree
    decreases path.len(),
{
    match t {
        Tree::Table(s) => if path.len() == 0 {
            t
        } else if path.len() == 1 {
            Tree::Table(without(s, path[0]))
        } else {
            match lookup(s, path[0]) {
                Some(child) => Tree::Table(
                    put(s, path[0], without_path(child, path.drop_first())),
                ),
                None => t,
            }
        },
        _ => t,
    }
}

/// The value at the end of a dotted key; nothing where the key is empty or leads nowhere.
pub open spec fn value_at(t: Tree, key: Seq<char>) -> Option<Tree> {
    if key_path(key).len() == 0 {
        None
    } else {
        at_path(t, key_path(key))
    }
}

/// The value that `key` leads to.
pub fn get_value_by_key<'a>(config: &'a ConfigValue, key: &str) -> (r: Option<&'a ConfigValue>)
    ensures
        match r {
            Some(v) => value_at(config@, key@) == Some(v@),
            None => value_at(config@, key@) is None,
        },
{
    let parts = match key_parts(key) {
        Ok(parts) => parts,
        Err(_) => {
            return None;
        },
    };
    let ghost path = views(parts@);
    let mut cursor: &'a ConfigValue = config;
    let mut i: usize = 0;
    assert(path.skip(0) =~= path);
    while i < parts.len()
        invariant
            path == views(parts@),
            path == key_path(key@),
            path.len() > 0,
            i <= parts@.len(),
            at_path(config@, path) == at_path(cursor@, path.skip(i as int)),
        decreases parts@.len() - i,
    {
        assert(path.skip(i as int)[0] == parts@[i as int]@);
        assert(path.skip(i as int).drop_first() =~= path.skip(i + 1));
        match cursor {
            ConfigValue::Table(entries) => {
                proof {
                    value_table_view(*entries);
                    lookup_of_mapped(named(entries@), |x: ConfigValue| x@, parts@[i as int]@);
                }
                match position_of(entries, parts[i].as_str()) {
                    Some(n) => {
                        cursor = &entries[n].1;
                    },
                    None => {
                        return None;
                    },
                }
            },
            _ => {
                return None;
            },
        }
        i = i + 1;
    }
    assert(path.skip(i as int).len() == 0);
    Some(cursor)
}

fn set_at(value: &mut ConfigValue, path: &Vec<String>, at: usize, new: ConfigValue)
    requires
        at < path@.len(),
        well_formed(old(value)@),
        well_formed(new@),
    ensures
        final(value)@ == with_path(old(value)@, views(path@).skip(at as int), new@),
        well_formed(final(value)@),
    decreases path@.len() - at,
{
    let ghost before = value@;
    let ghost rest = views(path@).skip(at as int);
    let ghost k = path@[at as int]@;
    proof {
        assert(rest[0] == k);
        assert(rest.drop_first() =~= views(path@).skip(at + 1));
    }
    let mut held = ConfigValue::Boolean(false);
    std::mem::swap(&mut held, value);
    let mut entries: Vec<(String, ConfigValue)> = match held {
        ConfigValue::Table(entries) => entries,
        _ => Vec::new(),
    };
    let ghost s = entries_of(before);
    proof {
        value_table_view(entries);
        assert(value_entries(entries@) =~= s);
        order_of_mapped(named(entries@), |x: ConfigValue| x@);
        lookup_of_mapped(named(entries@), |x: ConfigValue| x@, k);
        lookup_is_well_formed(s, k);
    }
    if at == path.len() - 1 {
        proof {
            put_of_mapped(named(entries@), |x: ConfigValue| x@, k, new);
            put_is_well_formed(s, k, new@);
            let child = match lookup(s, k) {
                Some(child) => child,
                None => Tree::Table(Seq::empty()),
            };
            assert(with_path(child, rest.drop_first(), new@) == new@);
        }
        let ghost placed = new@;
        put_entry(&mut entries, path[at].as_str(), new);
        assert(mapped(named(entries@), |x: ConfigValue| x@) == put(s, k, placed));
    } else {
        proof {
            without_of_mapped(named(entries@), |x: ConfigValue| x@, k);
        }
        let mut child: ConfigValue = match take_entry(&mut entries, path[at].as_str()) {
            Some(child) => child,
            None => {
                let none: Vec<(String, ConfigValue)> = Vec::new();
                proof {
                    value_table_view(none);
                    assert(value_entries(none@) =~= Seq::empty());
                }
                ConfigValue::Table(none)
            },
        };
        set_at(&mut child, path, at + 1, new);
        proof {
            put_after_without(s, k, child@);
            put_of_mapped(named(entries@), |x: ConfigValue| x@, k, child);
            put_is_well_formed(s, k, child@);
        }
        let ghost placed = child@;
        put_entry(&mut entries, path[at].as_str(), child);
        assert(mapped(named(entries@), |x: ConfigValue| x@) == put(s, k, placed));
    }
    proof {
        value_table_view(entries);
    }
    *value = ConfigValue::Table(entries);
}

/// What is found in a well-formed table is well formed.
proof fn lookup_is_well_formed(s: Seq<(Seq<char>, Tree)>, k: Seq<char>)
    requires
        ordered(s),
        forall|i: int| 0 <= i < s.len() ==> well_formed((#[trigger] s[i]).1),
    ensures
        lookup(s, k) is Some ==> well_formed(lookup(s, k)->0),
{
    lookup_in_slot(s, k);
    slot_bounds(s, k);
}

/// A well-formed value put into a well-formed table leaves it well formed.
proof fn put_is_well_formed(s: Seq<(Seq<char>, Tree)>, k: Seq<char>, v: Tree)
    requires
        ordered(s),
        forall|i: int| 0 <= i < s.len() ==> well_formed((#[trigger] s[i]).1),
        well_formed(v),
    ensures
        well_formed(Tree::Table(put(s, k, v))),
{
    put_keeps_order(s, k, v);
    slot_bounds(s, k);
    let done = put(s, k, v);
    let i = slot(s, k);
    assert forall|n: int| 0 <= n < done.len() implies well_formed((#[trigger] done[n]).1) by {
        if n == i {
        } else if n < i || done.len() == s.len() {
            assert(well_formed(s[n].1));
        } else {
            assert(well_formed(s[n - 1].1));
        }
    }
}

/// Removing from a well-formed table leaves it well formed.
proof fn without_is_well_formed(s: Seq<(Seq<char>, Tree)>, k: Seq<char>)
    requires
        ordered(s),
        forall|i: int| 0 <= i < s.len() ==> well_formed((#[trigger] s[i]).1),
    ensures
        well_formed(Tree::Table(without(s, k))),
{
    without_keeps_order(s, k);
    slot_bounds(s, k);
    let done = without(s, k);
    let i = slot(s, k);
    assert forall|n: int| 0 <= n < done.len() implies well_formed((#[trigger] done[n]).1) by {
        if n < i || done.len() == s.len() {
            assert(well_formed(s[n].1));
        } else {
            assert(well_formed(s[n + 1].1));
        }
    }
}

/// Puts `value` where `key` leads to; the tables on the way are made where they are missing.
pub fn set_value_by_key(config: &mut ConfigValue, key: &str, value: ConfigValue) -> (r: Result<
    (),
    Error,
>)
    requires
        well_formed(old(config)@),
        well_formed(value@),
    ensures
        well_formed(final(config)@),
        match r {
            Ok(_) => key_path(key@).len() > 0 && final(config)@ == with_path(
                old(config)@,
                key_path(key@),
                value@,
            ),
            Err(_) => key_path(key@).len() == 0 && *final(config) == *old(config) && fails_with(
                r,
                empty_key_message(),
            ),
        },
{
    match key_parts(key) {
        Ok(parts) => {
            assert(views(parts@).skip(0) =~= views(parts@));
            set_at(config, &parts, 0, value);
            Ok(())
        },
        Err(e) => Err(e),
    }
}

fn unset_at(value: &mut ConfigValue, path: &Vec<String>, at: usize) -> (r: bool)
    requires
        at < path@.len(),
        well_formed(old(value)@),
    ensures
        final(value)@ == without_path(old(value)@, views(path@).skip(at as int)),
        r == (at_path(old(value)@, views(path@).skip(at as int)) is Some),
        well_formed(final(value)@),
    decreases path@.len() - at,
{
    let ghost before = value@;
    let ghost rest = views(path@).skip(at as int);
    let ghost k = path@[at as int]@;
    proof {
        assert(rest[0] == k);
        assert(rest.drop_first() =~= views(path@).skip(at + 1));
    }
    let mut held = ConfigValue::Boolean(false);
    std::mem::swap(&mut held, value);
    match held {
        ConfigValue::Table(entries) => {
            let mut entries = entries;
            let ghost s = value_entries(entries@);
            proof {
                value_table_view(entries);
                order_of_mapped(named(entries@), |x: ConfigValue| x@);
                lookup_of_mapped(named(entries@), |x: ConfigValue| x@, k);
                without_of_mapped(named(entries@), |x: ConfigValue| x@, k);
                lookup_is_well_formed(s, k);
                lookup_in_slot(s, k);
            }
            let last = at == path.len() - 1;
            let removed = match take_entry(&mut entries, path[at].as_str()) {
                Some(child) => {
                    if last {
                        proof {
                            without_is_well_formed(s, k);
                            assert(at_path(child@, rest.drop_first()) is Some);
                        }
                        true
                    } else {
                        let mut child = child;
                        let removed = unset_at(&mut child, path, at + 1);
                        proof {
                            put_after_without(s, k, child@);
                            put_of_mapped(named(entries@), |x: ConfigValue| x@, k, child);
                            put_is_well_formed(s, k, child@);
                        }
                        let ghost placed = child@;
                        put_entry(&mut entries, path[at].as_str(), child);
                        assert(mapped(named(entries@), |x: ConfigValue| x@) == put(s, k, placed));
                        removed
                    }
                },
                None => {
                    assert(without(s, k) == s);
                    false
                },
            };
            proof {
                value_table_view(entries);
            }
            *value = ConfigValue::Table(entries);
            removed
        },
        other => {
            *value = other;
            false
        },
    }
}

/// Removes what `key` leads to, and says whether there was anything.
pub fn unset_value_by_key(config: &mut ConfigValue, key: &str) -> (r: Result<bool, Error>)
    requires
        well_formed(old(config)@),
    ensures
        well_formed(final(config)@),
        match r {
            Ok(removed) => key_path(key@).len() > 0 && final(config)@ == without_path(
                old(config)@,
                key_path(key@),
            ) && removed == (value_at(old(config)@, key@) is Some),
            Err(_) => key_path(key@).len() == 0 && *final(config) == *old(config) && fails_with(
                r,
                empty_key_message(),
            ),
        },
{
    match key_parts(key) {
        Ok(parts) => {
            assert(views(parts@).skip(0) =~= views(parts@));
            Ok(unset_at(config, &parts, 0))
        },
        Err(e) => Err(e),
    }
}

// ---------------------------------------------------------------------------------------------
// Laws of reading and changing
// ---------------------------------------------------------------------------------------------

/// A path in two parts leads on from where its first part leads.
pub proof fn at_path_in_parts(t: Tree, p: Seq<Seq<char>>, q: Seq<Seq<char>>)
    ensures
        at_path(t, p + q) == match at_path(t, p) {
            Some(child) => at_path(child, q),
            None => None,
        },
    decreases p.len(),
{
    if p.len() == 0 {
        assert(p + q =~= q);
    } else {
        assert((p + q).drop_first() =~= p.drop_first() + q);
        if let Tree::Table(s) = t {
            if let Some(child) = lookup(s, p[0]) {
                at_path_in_parts(child, p.drop_first(), q);
            }
        }
    }
}

/// Whether two paths part before either of them ends.
pub open spec fn apart(p: Seq<Seq<char>>, q: Seq<Seq<char>>) -> bool
    decreases p.len(),
{
    p.len() > 0 && q.len() > 0 && (p[0] != q[0] || apart(p.drop_first(), q.drop_first()))
}

/// Paths that part still do so after a common beginning.
pub proof fn apart_after_prefix(prefix: Seq<Seq<char>>, p: Seq<Seq<char>>, q: Seq<Seq<char>>)
    requires
        apart(p, q),
    ensures
        apart(prefix + p, prefix + q),
    decreases prefix.len(),
{
    if prefix.len() == 0 {
        assert(prefix + p =~= p);
        assert(prefix + q =~= q);
    } else {
        apart_after_prefix(prefix.drop_first(), p, q);
        assert((prefix + p).drop_first() =~= prefix.drop_first() + p);
        assert((prefix + q).drop_first() =~= prefix.drop_first() + q);
    }
}

/// What was set is read back.
pub proof fn get_after_set(t: Tree, path: Seq<Seq<char>>, v: Tree)
    ensures
        at_path(with_path(t, path, v), path) == Some(v),
    decreases path.len(),
{
    if path.len() > 0 {
        let s = entries_of(t);
        let child = match lookup(s, path[0]) {
            Some(child) => child,
            None => Tree::Table(Seq::empty()),
        };
        let rest = path.drop_first();
        lookup_after_put(s, path[0], with_path(child, rest, v));
        get_after_set(child, rest, v);
    }
}

/// Setting a value changes nothing that lies apart from it.
pub proof fn set_leaves_the_rest(t: Tree, path: Seq<Seq<char>>, v: Tree, other: Seq<Seq<char>>)
    requires
        apart(path, other),
    ensures
        at_path(with_path(t, path, v), other) == at_path(t, other),
    decreases path.len(),
{
    let s = entries_of(t);
    let child = match lookup(s, path[0]) {
        Some(child) => child,
        None => Tree::Table(Seq::empty()),
    };
    let rest = path.drop_first();
    let new = with_path(child, rest, v);
    if path[0] != other[0] {
        lookup_after_put_elsewhere(s, path[0], new, other[0]);
    } else {
        lookup_after_put(s, path[0], new);
        set_leaves_the_rest(child, rest, v, other.drop_first());
        assert(other.drop_first().len() > 0) by {
            reveal_with_fuel(apart, 2);
        }
        assert(at_path(Tree::Table(Seq::empty()), other.drop_first()) is None);
    }
}

/// What was removed is not read any more.
pub proof fn get_after_unset(t: Tree, path: Seq<Seq<char>>)
    requires
        well_formed(t),
        path.len() > 0,
    ensures
        at_path(without_path(t, path), path) is None,
    decreases path.len(),
{
    match t {
        Tree::Table(s) => {
            if path.len() == 1 {
                lookup_after_without(s, path[0]);
            } else {
                match lookup(s, path[0]) {
                    Some(child) => {
                        lookup_is_well_formed(s, path[0]);
                        let rest = path.drop_first();
                        lookup_after_put(s, path[0], without_path(child, rest));
                        get_after_unset(child, rest);
                    },
                    None => {},
                }
            }
        },
        _ => {},
    }
}

/// Removing a value changes nothing that lies apart from it.
pub proof fn unset_leaves_the_rest(t: Tree, path: Seq<Seq<char>>, other: Seq<Seq<char>>)
    requires
        well_formed(t),
        apart(path, other),
    ensures
        at_path(without_path(t, path), other) == at_path(t, other),
    decreases path.len(),
{
    match t {
        Tree::Table(s) => {
            if path.len() == 1 {
                assert(!apart(path.drop_first(), other.drop_first()));
                lookup_after_without_elsewhere(s, path[0], other[0]);
            } else {
                match lookup(s, path[0]) {
                    Some(child) => {
                        lookup_is_well_formed(s, path[0]);
                        let rest = path.drop_first();
                        let new = without_path(child, rest);
                        if path[0] != other[0] {
                            lookup_after_put_elsewhere(s, path[0], new, other[0]);
                        } else {
                            lookup_after_put(s, path[0], new);
                            unset_leaves_the_rest(child, rest, other.drop_first());
                        }
                    },
                    None => {},
                }
            }
        },
        _ => {},
    }
}

/// Removing what is not there changes nothing.
pub proof fn unset_of_nothing(t: Tree, path: Seq<Seq<char>>)
    requires
        well_formed(t),
        path.len() > 0,
        at_path(t, path) is None,
    ensures
        without_path(t, path) == t,
    decreases path.len(),
{
    match t {
        Tree::Table(s) => {
            lookup_in_slot(s, path[0]);
            slot_bounds(s, path[0]);
            if path.len() == 1 {
                if let Some(child) = lookup(s, path[0]) {
                    assert(at_path(child, path.drop_first()) == Some(child));
                }
            } else {
                match lookup(s, path[0]) {
                    Some(child) => {
                        lookup_is_well_formed(s, path[0]);
                        unset_of_nothing(child, path.drop_first());
                        assert(put(s, path[0], child) =~= s);
                    },
                    None => {},
                }
            }
        },
        _ => {},
    }
}

/// What stands in a well-formed configuration is well formed.
pub proof fn value_at_is_well_formed(t: Tree, key: Seq<char>)
    requires
        well_formed(t),
    ensures
        value_at(t, key) is Some ==> well_formed(value_at(t, key)->0),
{
    at_path_is_well_formed(t, key_path(key));
}

proof fn at_path_is_well_formed(t: Tree, path: Seq<Seq<char>>)
    requires
        well_formed(t),
    ensures
        at_path(t, path) is Some ==> well_formed(at_path(t, path)->0),
    decreases path.len(),
{
    if path.len() > 0 {
        if let Tree::Table(s) = t {
            if let Some(child) = lookup(s, path[0]) {
                lookup_is_well_formed(s, path[0]);
                at_path_is_well_formed(child, path.drop_first());
            }
        }
    }
}

// ---------------------------------------------------------------------------------------------
// A configuration over defaults
// ---------------------------------------------------------------------------------------------

/// A configuration over defaults, table by table: what stands in the configuration wins, and what
/// it leaves open is as in the defaults.
pub open spec fn merged_over(defaults: Tree, t: Tree) -> Tree
    decreases t,
{
    match (defaults, t) {
        (Tree::Table(d), Tree::Table(s)) => Tree::Table(merged_entries(d, s)),
        _ => t,
    }
}

/// The entries of a table over those of defaults.
pub open spec fn merged_entries(
    d: Seq<(Seq<char>, Tree)>,
    s: Seq<(Seq<char>, Tree)>,
) -> Seq<(Seq<char>, Tree)>
    decreases s,
{
    if s.len() == 0 {
        d
    } else {
        let last = s[s.len() - 1];
        let front = s.subrange(0, s.len() - 1);
        put(
            merged_entries(d, front),
            last.0,
            match lookup(d, last.0) {
                Some(default) => merged_over(default, last.1),
                None => last.1,
            },
        )
    }
}

/// What stands last in a table does not matter to other names.
proof fn lookup_before_last(s: Seq<(Seq<char>, Tree)>, k: Seq<char>)
    requires
        s.len() > 0,
        s.last().0 != k,
    ensures
        lookup(s, k) == lookup(s.subrange(0, s.len() - 1), k),
    decreases s.len(),
{
    let front = s.subrange(0, s.len() - 1);
    if s.len() > 1 && s[0].0 != k {
        lookup_before_last(s.drop_first(), k);
        assert(front.drop_first() =~= s.drop_first().subrange(0, s.len() - 2));
    }
    if s.len() == 1 {
        assert(lookup(s.drop_first(), k) is None);
    } else {
        assert(front[0] == s[0]);
    }
}

/// The front of an ordered table is ordered, and holds other names than its last one.
proof fn front_is_ordered(s: Seq<(Seq<char>, Tree)>)
    requires
        s.len() > 0,
        ordered(s),
    ensures
        ordered(s.subrange(0, s.len() - 1)),
        lookup(s.subrange(0, s.len() - 1), s.last().0) is None,
        lookup(s, s.last().0) == Some(s.last().1),
{
    let front = s.subrange(0, s.len() - 1);
    let k = s.last().0;
    assert forall|i: int, j: int| 0 <= i < j < front.len() implies before(
        #[trigger] front[i].0,
        #[trigger] front[j].0,
    ) by {
        assert(before(s[i].0, s[j].0));
    }
    assert forall|i: int| 0 <= i < s.len() - 1 implies (#[trigger] s[i]).0 != k by {
        assert(before(s[i].0, s[s.len() - 1].0));
        before_is_irreflexive(k);
    }
    assert forall|i: int| 0 <= i < front.len() implies (#[trigger] front[i]).0 != k by {
        assert(s[i].0 != k);
    }
    lookup_is_first(s, k, s.len() - 1);
    lookup_is_first(front, k, front.len() as int);
}

/// What stands under a name in a table over defaults.
pub proof fn lookup_of_merged(
    d: Seq<(Seq<char>, Tree)>,
    s: Seq<(Seq<char>, Tree)>,
    k: Seq<char>,
)
    requires
        ordered(s),
    ensures
        lookup(merged_entries(d, s), k) == match lookup(s, k) {
            None => lookup(d, k),
            Some(v) => match lookup(d, k) {
                None => Some(v),
                Some(default) => Some(merged_over(default, v)),
            },
        },
    decreases s.len(),
{
    if s.len() > 0 {
        let last = s.last();
        let front = s.subrange(0, s.len() - 1);
        let v = match lookup(d, last.0) {
            Some(default) => merged_over(default, last.1),
            None => last.1,
        };
        front_is_ordered(s);
        if last.0 == k {
            lookup_after_put(merged_entries(d, front), k, v);
        } else {
            lookup_after_put_elsewhere(merged_entries(d, front), last.0, v, k);
            lookup_before_last(s, k);
            lookup_of_merged(d, front, k);
        }
    }
}

/// A well-formed configuration over well-formed defaults is well formed.
pub proof fn merged_is_well_formed(defaults: Tree, t: Tree)
    requires
        well_formed(defaults),
        well_formed(t),
    ensures
        well_formed(merged_over(defaults, t)),
    decreases t,
{
    if let (Tree::Table(d), Tree::Table(s)) = (defaults, t) {
        merged_entries_are_well_formed(d, s);
    }
}

proof fn merged_entries_are_well_formed(d: Seq<(Seq<char>, Tree)>, s: Seq<(Seq<char>, Tree)>)
    requires
        well_formed(Tree::Table(d)),
        well_formed(Tree::Table(s)),
    ensures
        well_formed(Tree::Table(merged_entries(d, s))),
    decreases s,
{
    if s.len() > 0 {
        let last = s[s.len() - 1];
        let front = s.subrange(0, s.len() - 1);
        front_is_ordered(s);
        assert forall|i: int| 0 <= i < front.len() implies well_formed((#[trigger] front[i]).1) by {
            assert(well_formed(s[i].1));
        }
        merged_entries_are_well_formed(d, front);
        lookup_is_well_formed(d, last.0);
        assert(well_formed(last.1));
        let v = match lookup(d, last.0) {
            Some(default) => {
                merged_is_well_formed(default, last.1);
                merged_over(default, last.1)
            },
            None => last.1,
        };
        put_is_well_formed(merged_entries(d, front), last.0, v);
    }
}

/// A value in the configuration, other than a table, is there over any defaults.
pub proof fn merged_keeps_the_values(defaults: Tree, t: Tree, path: Seq<Seq<char>>)
    requires
        well_formed(t),
        at_path(t, path) is Some,
        !(at_path(t, path)->0 is Table),
    ensures
        at_path(merged_over(defaults, t), path) == at_path(t, path),
    decreases path.len(),
{
    if let (Tree::Table(d), Tree::Table(s)) = (defaults, t) {
        lookup_of_merged(d, s, path[0]);
        lookup_is_well_formed(s, path[0]);
        if let Some(default) = lookup(d, path[0]) {
            merged_keeps_the_values(default, lookup(s, path[0])->0, path.drop_first());
        }
    }
}

/// What the configuration leaves open is as in the defaults: where a path leads nowhere in the
/// configuration, and nothing but tables stands on the way, the defaults hold.
pub proof fn merged_fills_with_defaults(defaults: Tree, t: Tree, path: Seq<Seq<char>>)
    requires
        well_formed(t),
        at_path(t, path) is None,
        forall|n: int|
            0 <= n < path.len() ==> match #[trigger] at_path(t, path.take(n)) {
                Some(on_the_way) => on_the_way is Table,
                None => true,
            },
    ensures
        at_path(merged_over(defaults, t), path) == at_path(defaults, path),
    decreases path.len(),
{
    assert(path.take(0).len() == 0);
    assert(at_path(t, path.take(0)) == Some(t));
    let s = t->Table_0;
    if let Tree::Table(d) = defaults {
        lookup_of_merged(d, s, path[0]);
        lookup_is_well_formed(s, path[0]);
        if let (Some(default), Some(v)) = (lookup(d, path[0]), lookup(s, path[0])) {
            let rest = path.drop_first();
            assert forall|n: int| 0 <= n < rest.len() implies match #[trigger] at_path(
                v,
                rest.take(n),
            ) {
                Some(on_the_way) => on_the_way is Table,
                None => true,
            } by {
                assert(path.take(n + 1).drop_first() =~= rest.take(n));
                assert(path.take(n + 1)[0] == path[0]);
                assert(at_path(t, path.take(n + 1)) == at_path(v, rest.take(n)));
            }
            merged_fills_with_defaults(default, v, rest);
        }
    }
}

/// Over itself, a configuration is what it is.
pub proof fn merged_over_itself(t: Tree)
    requires
        well_formed(t),
    ensures
        merged_over(t, t) == t,
    decreases t,
{
    if let Tree::Table(s) = t {
        assert forall|i: int| 0 <= i < s.len() implies merged_over(
            (#[trigger] s[i]).1,
            s[i].1,
        ) == s[i].1 by {
            assert(decreases_to!(t => s));
            assert(decreases_to!(s => s[i]));
            assert(decreases_to!(s[i] => s[i].1));
            merged_over_itself(s[i].1);
        }
        merged_over_its_front(s, s.len() as int);
        assert(s.take(s.len() as int) =~= s);
    }
}

proof fn merged_over_its_front(s: Seq<(Seq<char>, Tree)>, n: int)
    requires
        0 <= n <= s.len(),
        well_formed(Tree::Table(s)),
        forall|i: int| 0 <= i < s.len() ==> merged_over((#[trigger] s[i]).1, s[i].1) == s[i].1,
    ensures
        merged_entries(s, s.take(n)) == s,
    decreases n,
{
    if n > 0 {
        let last = s[n - 1];
        merged_over_its_front(s, n - 1);
        assert(s.take(n).subrange(0, n - 1) =~= s.take(n - 1));
        slot_bounds(s, last.0);
        lookup_in_slot(s, last.0);
        let i = slot(s, last.0);
        before_is_irreflexive(last.0);
        if i < n - 1 {
            assert(before(s[i].0, last.0));
        }
        assert(i == n - 1);
        assert(put(s, last.0, last.1) =~= s);
    }
}

/// The configuration over defaults.
pub fn merge_config(defaults: ConfigValue, config: ConfigValue) -> (r: ConfigValue)
    requires
        well_formed(defaults@),
        well_formed(config@),
    ensures
        r@ == merged_over(defaults@, config@),
        well_formed(r@),
    decreases config@,
{
    let ghost tree = config@;
    proof {
        merged_is_well_formed(defaults@, config@);
    }
    match config {
        ConfigValue::Table(entries) => match defaults {
            ConfigValue::Table(base) => {
                proof {
                    value_table_view(base);
                    value_table_view(entries);
                    assert(decreases_to!(tree => tree->Table_0));
                }
                let merged = merge_entries(base, entries);
                proof {
                    value_table_view(merged);
                }
                ConfigValue::Table(merged)
            },
            _ => ConfigValue::Table(entries),
        },
        _ => config,
    }
}

fn merge_entries(base: Vec<(String, ConfigValue)>, entries: Vec<(String, ConfigValue)>) -> (r: Vec<
    (String, ConfigValue),
>)
    requires
        well_formed(Tree::Table(value_entries(base@))),
        well_formed(Tree::Table(value_entries(entries@))),
    ensures
        value_entries(r@) == merged_entries(value_entries(base@), value_entries(entries@)),
    decreases value_entries(entries@),
{
    let ghost d = value_entries(base@);
    let ghost s = value_entries(entries@);
    let ghost all = entries@;
    let mut out = base;
    assert(s.take(0).len() == 0);
    for item in it: entries
        invariant
            it.seq() == all,
            all == entries@,
            s == value_entries(all),
            well_formed(Tree::Table(d)),
            well_formed(Tree::Table(s)),
            value_entries(out@) == merged_entries(d, s.take(it.index())),
            well_formed(Tree::Table(value_entries(out@))),
    {
        let ghost i = it.index();
        let ghost pair = s[i];
        let ghost front = s.take(i);
        let ghost upto = s.take(i + 1);
        let ghost k = pair.0;
        let ghost before_put = value_entries(out@);
        let (name, value) = item;
        proof {
            assert(upto.subrange(0, upto.len() - 1) =~= front);
            assert(upto[upto.len() - 1] == pair);
            front_of_well_formed(s, i + 1);
            front_of_well_formed(s, i);
            front_is_ordered(upto);
            lookup_of_merged(d, front, k);
            lookup_is_well_formed(d, k);
            assert(well_formed(pair.1));
            value_table_view(out);
            order_of_mapped(named(out@), |x: ConfigValue| x@);
            lookup_of_mapped(named(out@), |x: ConfigValue| x@, k);
            without_of_mapped(named(out@), |x: ConfigValue| x@, k);
            assert(decreases_to!(s => pair));
            assert(decreases_to!(pair => pair.1));
        }
        let placed = match take_entry(&mut out, name.as_str()) {
            Some(default) => merge_config(default, value),
            None => value,
        };
        proof {
            put_after_without(before_put, k, placed@);
            put_of_mapped(named(out@), |x: ConfigValue| x@, k, placed);
            merged_entries_are_well_formed(d, upto);
        }
        let ghost tree = placed@;
        put_entry(&mut out, name.as_str(), placed);
        proof {
            value_table_view(out);
            assert(mapped(named(out@), |x: ConfigValue| x@) == put(before_put, k, tree));
        }
    }
    assert(s.take(s.len() as int) =~= s);
    out
}

proof fn front_of_well_formed(s: Seq<(Seq<char>, Tree)>, n: int)
    requires
        0 <= n <= s.len(),
        well_formed(Tree::Table(s)),
    ensures
        well_formed(Tree::Table(s.take(n))),
{
    let front = s.take(n);
    assert forall|i: int, j: int| 0 <= i < j < front.len() implies before(
        #[trigger] front[i].0,
        #[trigger] front[j].0,
    ) by {
        assert(before(s[i].0, s[j].0));
    }
    assert forall|i: int| 0 <= i < front.len() implies well_formed((#[trigger] front[i]).1) by {
        assert(well_formed(s[i].1));
    }
}

// ---------------------------------------------------------------------------------------------
// Values from JSON
// ---------------------------------------------------------------------------------------------

/// The configuration value of the floating-point number that `serde_json::Number::as_f64` gives.
pub uninterp spec fn number_float(n: serde_json::Number) -> toml::Value;

/// The number as a floating-point value.
///
/// Trusted: `serde_json::Number::as_f64`, which gives a value for every number, one that is a
/// function of the number, and the variant of `toml::Value` for such values.
#[verifier::external_body]
fn float_value(n: &serde_json::Number) -> (r: Option<toml::Value>)
    ensures
        r == Some(number_float(*n)),
        r is Some ==> toml_tree(r->0) == Tree::Float(r->0),
{
    n.as_f64().map(toml::Value::Float)
}

/// The configuration value of a JSON value; nothing where a null stands anywhere in it.
pub open spec fn from_json(t: JsonTree) -> Option<Tree>
    decreases t,
{
    match t {
        JsonTree::Null => None,
        JsonTree::Bool(b) => Some(Tree::Boolean(b)),
        JsonTree::Number(n) => match number_i64(n) {
            Some(i) => Some(Tree::Integer(i)),
            None => Some(Tree::Float(number_float(n))),
        },
        JsonTree::Text(s) => Some(Tree::Text(s)),
        JsonTree::Array(s) => if forall|i: int|
            0 <= i < s.len() ==> from_json(#[trigger] s[i]) is Some {
            Some(
                Tree::Array(
                    Seq::new(
                        s.len(),
                        |i: int|
                            if 0 <= i < s.len() {
                                from_json(s[i])->0
                            } else {
                                Tree::Boolean(false)
                            },
                    ),
                ),
            )
        } else {
            None
        },
        JsonTree::Object(s) => if forall|i: int|
            0 <= i < s.len() ==> from_json((#[trigger] s[i]).1) is Some {
            Some(
                Tree::Table(
                    Seq::new(
                        s.len(),
                        |i: int|
                            (
                                s[i].0,
                                if 0 <= i < s.len() {
                                    from_json(s[i].1)->0
                                } else {
                                    Tree::Boolean(false)
                                },
                            ),
                    ),
                ),
            )
        } else {
            None
        },
    }
}

/// What is said of a null.
pub open spec fn null_message() -> Seq<char> {
    "null is not representable in TOML"@
}

/// The configuration value of a JSON value.
pub fn json_to_toml_value(json: &Json) -> (r: Result<ConfigValue, Error>)
    requires
        tidy(json@),
    ensures
        match r {
            Ok(v) => from_json(json@) == Some(v@) && well_formed(v@),
            Err(_) => from_json(json@) is None && fails_with(r, null_message()),
        },
    decreases json,
{
    match json {
        Json::Null => Err(Error::new("null is not representable in TOML")),
        Json::Bool(b) => Ok(ConfigValue::Boolean(*b)),
        Json::Number(n) => {
            match json.as_i64() {
                Some(i) => Ok(ConfigValue::Integer(i)),
                None => match float_value(n) {
                    Some(v) => Ok(ConfigValue::Float(v)),
                    None => Err(Error::new("unsupported number value")),
                },
            }
        },
        Json::String(s) => Ok(ConfigValue::String(s.clone())),
        Json::Array(items) => {
            proof {
                array_view(*items);
            }
            let ghost trees = item_trees(items@);
            let mut out: Vec<ConfigValue> = Vec::new();
            let mut i: usize = 0;
            while i < items.len()
                invariant
                    json is Array,
                    json->Array_0 == *items,
                    json@ == JsonTree::Array(trees),
                    trees == item_trees(items@),
                    tidy(JsonTree::Array(trees)),
                    i == out@.len(),
                    i <= items@.len(),
                    forall|n: int|
                        0 <= n < i ==> from_json(#[trigger] trees[n]) == Some(out@[n]@)
                            && well_formed(out@[n]@),
                decreases items@.len() - i,
            {
                assert(decreases_to!(json => items@[i as int]));
                assert(trees[i as int] == items@[i as int]@);
                assert(tidy(trees[i as int]));
                match json_to_toml_value(&items[i]) {
                    Ok(v) => {
                        out.push(v);
                    },
                    Err(e) => {
                        assert(from_json(trees[i as int]) is None);
                        return Err(e);
                    },
                }
                i = i + 1;
            }
            proof {
                value_array_view(out);
                assert(from_json(json@) is Some);
                assert(from_json(json@)->0->Array_0 =~= value_items(out@));
                assert forall|n: int| 0 <= n < out@.len() implies well_formed(
                    #[trigger] value_items(out@)[n],
                ) by {
                    assert(from_json(trees[n]) is Some);
                }
            }
            Ok(ConfigValue::Array(out))
        },
        Json::Object(fields) => {
            proof {
                object_view(*fields);
            }
            let ghost trees = field_trees(fields@);
            let mut out: Vec<(String, ConfigValue)> = Vec::new();
            let mut i: usize = 0;
            while i < fields.len()
                invariant
                    json is Object,
                    json->Object_0 == *fields,
                    json@ == JsonTree::Object(trees),
                    trees == field_trees(fields@),
                    tidy(JsonTree::Object(trees)),
                    i == out@.len(),
                    i <= fields@.len(),
                    forall|n: int|
                        0 <= n < i ==> (#[trigger] trees[n]).0 == out@[n].0@ && from_json(
                            trees[n].1,
                        ) == Some(out@[n].1@) && well_formed(out@[n].1@),
                decreases fields@.len() - i,
            {
                assert(decreases_to!(json => fields@[i as int].1));
                assert(trees[i as int].1 == fields@[i as int].1@);
                assert(tidy(trees[i as int].1));
                match json_to_toml_value(&fields[i].1) {
                    Ok(v) => {
                        let name = fields[i].0.clone();
                        out.push((name, v));
                    },
                    Err(e) => {
                        assert(from_json(trees[i as int].1) is None);
                        return Err(e);
                    },
                }
                i = i + 1;
            }
            proof {
                value_table_view(out);
                let done = value_entries(out@);
                assert(from_json(json@) is Some);
                assert(from_json(json@)->0->Table_0 =~= done);
                assert forall|a: int, b: int| 0 <= a < b < done.len() implies before(
                    #[trigger] done[a].0,
                    #[trigger] done[b].0,
                ) by {
                    assert(trees[a].0 == done[a].0 && trees[b].0 == done[b].0);
                    assert(before(trees[a].0, trees[b].0));
                }
                assert forall|n: int| 0 <= n < done.len() implies well_formed(
                    (#[trigger] done[n]).1,
                ) by {
                    assert(trees[n].0 == done[n].0);
                }
            }
            Ok(ConfigValue::Table(out))
        },
    }
}

/// The value that a `config set` writes: the text as it is, or the JSON that it holds.
pub fn parse_set_value(raw: &str, json_value: bool) -> (r: Result<ConfigValue, Error>)
    ensures
        r is Ok ==> well_formed(r->Ok_0@),
        !json_value ==> r is Ok && r->Ok_0@ == Tree::Text(raw@),
        json_value ==> match json_parsed(raw@) {
            None => fails_from(
                r,
                "invalid JSON for --json-value: "@ + raw@,
                json_problem(raw@),
            ),
            Some(t) => match from_json(t) {
                Some(v) => r is Ok && r->Ok_0@ == v,
                None => fails_with(r, null_message()),
            },
        },
{
    if !json_value {
        return Ok(ConfigValue::String(raw.to_string()));
    }
    match Json::parse(raw) {
        Ok(json) => json_to_toml_value(&json),
        Err(problem) => {
            let mut message = "invalid JSON for --json-value: ".to_string();
            message.append(raw);
            Err(Error { message, cause: Some(problem) })
        },
    }
}

// ---------------------------------------------------------------------------------------------
// The bridge to toml
// ---------------------------------------------------------------------------------------------

/// What a `toml::Value` holds.
pub uninterp spec fn toml_tree(v: toml::Value) -> Tree;

/// What a `toml::value::Datetime` holds.
pub uninterp spec fn toml_date(d: toml::value::Datetime) -> DateTime;

/// The value that `toml::from_str` reads from a text, where it reads one.
pub uninterp spec fn toml_parsed(text: Seq<char>) -> Option<Tree>;

/// The message of the failure with which `toml::from_str` refuses a text.
pub uninterp spec fn toml_problem(text: Seq<char>) -> Seq<char>;

/// The text that `toml::to_string_pretty` writes for a value, where it writes one.
pub uninterp spec fn toml_pretty(t: Tree) -> Option<Seq<char>>;

/// The message of the failure with which `toml::to_string_pretty` refuses a value.
pub uninterp spec fn toml_refusal(t: Tree) -> Seq<char>;

/// The text that `to_string` of `toml::Value` writes.
pub uninterp spec fn toml_display(t: Tree) -> Seq<char>;

/// The text that `serde_json::to_string_pretty` writes for a `toml::Value`.
pub uninterp spec fn toml_as_json(t: Tree) -> Seq<char>;

/// One level of a `toml::Value`.
pub enum TomlLevel {
    String(String),
    Integer(i64),
    Boolean(bool),
    Array(Vec<toml::Value>),
    Table(Vec<(String, toml::Value)>),
    Float(toml::Value),
    Date(toml::value::Datetime),
}

/// The trees of values.
pub open spec fn toml_trees(s: Seq<toml::Value>) -> Seq<Tree> {
    Seq::new(s.len(), |i: int| toml_tree(s[i]))
}

/// The trees of named values.
pub open spec fn toml_entry_trees(s: Seq<(String, toml::Value)>) -> Seq<(Seq<char>, Tree)> {
    Seq::new(s.len(), |i: int| (s[i].0@, toml_tree(s[i].1)))
}

/// The tree of one level and what lies under it.
pub open spec fn toml_level_tree(l: TomlLevel) -> Tree {
    match l {
        TomlLevel::String(s) => Tree::Text(s@),
        TomlLevel::Integer(i) => Tree::Integer(i),
        TomlLevel::Boolean(b) => Tree::Boolean(b),
        TomlLevel::Array(v) => Tree::Array(toml_trees(v@)),
        TomlLevel::Table(v) => Tree::Table(toml_entry_trees(v@)),
        TomlLevel::Float(n) => Tree::Float(n),
        TomlLevel::Date(d) => Tree::Date(toml_date(d)),
    }
}

/// Whether the names on one level stand in order.
pub open spec fn toml_level_in_order(l: TomlLevel) -> bool {
    match l {
        TomlLevel::Table(v) => ordered(toml_entry_trees(v@)),
        _ => true,
    }
}

/// Takes one level off a `toml::Value`.
///
/// Trusted: the variants of `toml::Value`, whose tables are maps that hand their entries out in
/// the order of the names, each name once. A floating-point number stays as it is.
#[verifier::external_body]
fn open_toml(v: toml::Value) -> (r: TomlLevel)
    ensures
        toml_level_tree(r) == toml_tree(v),
        toml_level_in_order(r),
        r is Float ==> r->Float_0 == v,
{
    match v {
        toml::Value::String(s) => TomlLevel::String(s),
        toml::Value::Integer(i) => TomlLevel::Integer(i),
        toml::Value::Boolean(b) => TomlLevel::Boolean(b),
        toml::Value::Array(items) => TomlLevel::Array(items),
        toml::Value::Table(table) => TomlLevel::Table(table.into_iter().collect()),
        toml::Value::Float(_) => TomlLevel::Float(v),
        toml::Value::Datetime(d) => TomlLevel::Date(d),
    }
}

/// Puts one level onto `toml::Value`s.
///
/// Trusted: the variants of `toml::Value`, whose tables are maps that keep their entries in the
/// order of the names. What was left as it is stays so.
#[verifier::external_body]
fn close_toml(l: TomlLevel) -> (r: toml::Value)
    requires
        toml_level_in_order(l),
        l is Float ==> toml_tree(l->Float_0) == toml_level_tree(l),
    ensures
        toml_tree(r) == toml_level_tree(l),
{
    match l {
        TomlLevel::String(s) => toml::Value::String(s),
        TomlLevel::Integer(i) => toml::Value::Integer(i),
        TomlLevel::Boolean(b) => toml::Value::Boolean(b),
        TomlLevel::Array(items) => toml::Value::Array(items),
        TomlLevel::Table(entries) => toml::Value::Table(entries.into_iter().collect()),
        TomlLevel::Float(n) => n,
        TomlLevel::Date(d) => toml::Value::Datetime(d),
    }
}

/// Takes a date apart.
///
/// Trusted: the fields of `toml::value::Datetime`.
#[verifier::external_body]
fn open_date(d: &toml::value::Datetime) -> (r: DateTime)
    ensures
        r == toml_date(*d),
{
    DateTime {
        date: d.date.map(|date| (date.year, date.month, date.day)),
        time: d.time.map(|time| (time.hour, time.minute, time.second, time.nanosecond)),
        offset: d.offset.map(|offset| match offset {
            toml::value::Offset::Z => UtcOffset::Zulu,
            toml::value::Offset::Custom { minutes } => UtcOffset::Minutes(minutes),
        }),
    }
}

/// Puts a date together.
///
/// Trusted: the fields of `toml::value::Datetime`.
#[verifier::external_body]
fn close_date(d: &DateTime) -> (r: toml::value::Datetime)
    ensures
        toml_date(r) == *d,
{
    toml::value::Datetime {
        date: d.date.map(|(year, month, day)| toml::value::Date { year, month, day }),
        time: d.time.map(|(hour, minute, second, nanosecond)| {
            toml::value::Time { hour, minute, second, nanosecond }
        }),
        offset: d.offset.map(|offset| match offset {
            UtcOffset::Zulu => toml::value::Offset::Z,
            UtcOffset::Minutes(minutes) => toml::value::Offset::Custom { minutes },
        }),
    }
}

/// A copy of a value.
///
/// Trusted: `clone` of `toml::Value` gives the same value.
#[verifier::external_body]
fn copy_toml(v: &toml::Value) -> (r: toml::Value)
    ensures
        r == *v,
{
    v.clone()
}

/// How deep arrays and tables are nested in a tree.
pub open spec fn no_deeper_than(t: Tree, depth: nat) -> bool
    decreases depth,
{
    match t {
        Tree::Array(s) => depth > 0 && forall|i: int|
            0 <= i < s.len() ==> no_deeper_than(#[trigger] s[i], (depth - 1) as nat),
        Tree::Table(s) => depth > 0 && forall|i: int|
            0 <= i < s.len() ==> no_deeper_than((#[trigger] s[i]).1, (depth - 1) as nat),
        _ => true,
    }
}

/// Whether nothing in the tree is a floating-point value that is no number, or stands under the
/// name that `toml` keeps for dates.
pub open spec fn plain(t: Tree) -> bool
    decreases t,
{
    match t {
        Tree::Array(s) => forall|i: int| 0 <= i < s.len() ==> plain(#[trigger] s[i]),
        Tree::Table(s) => forall|i: int|
            0 <= i < s.len() ==> (#[trigger] s[i]).0 != "$__toml_private_datetime"@ && plain(
                s[i].1,
            ),
        Tree::Float(_) => toml_display(t) != "nan"@,
        _ => true,
    }
}

/// Whether a configuration that was saved is read back as it was: a table of plain values that
/// are nested no deeper than `toml` reads. It reads headers of up to eighty names, and values of up
/// to eighty arrays and tables in each other; the table that is the whole adds one level.
pub open spec fn keeps(t: Tree) -> bool {
    t is Table && plain(t) && no_deeper_than(t, 81)
}

/// Reads a text.
///
/// Trusted: `toml::from_str`, whose outcome, the message of its failure too, is a function of the
/// text. Each date that it reads has its parts in their ranges, since `toml` checks them.
#[verifier::external_body]
fn read_toml(text: &str) -> (r: Result<toml::Value, String>)
    ensures
        match r {
            Ok(v) => toml_parsed(text@) == Some(toml_tree(v)) && well_formed(toml_tree(v)),
            Err(problem) => toml_parsed(text@) is None && problem@ == toml_problem(text@),
        },
{
    toml::from_str::<toml::Value>(text).map_err(|error| error.to_string())
}

/// Writes a value as a document.
///
/// Trusted: `toml::to_string_pretty`, whose outcome, the message of its failure too, is a function
/// of what the value holds. A table of plain values, nested no deeper than the limit of
/// `toml::from_str`, it writes without a failure, and `toml::from_str` reads the same table from
/// what it wrote: of a floating-point number it writes as many digits as tell it from all others.
/// It may panic on a date with parts out of their ranges.
#[verifier::external_body]
fn write_toml(v: &toml::Value) -> (r: Result<String, String>)
    requires
        well_formed(toml_tree(*v)),
    ensures
        match r {
            Ok(s) => toml_pretty(toml_tree(*v)) == Some(s@) && (keeps(toml_tree(*v))
                ==> toml_parsed(s@) == Some(toml_tree(*v))),
            Err(problem) => toml_pretty(toml_tree(*v)) is None && problem@ == toml_refusal(
                toml_tree(*v),
            ) && !keeps(toml_tree(*v)),
        },
{
    toml::to_string_pretty(v).map_err(|error| error.to_string())
}

/// Writes a value on its own.
///
/// Trusted: `to_string` of `toml::Value`, whose result is a function of what the value holds. It
/// panics on a date with parts out of their ranges, and on nothing else.
#[verifier::external_body]
fn show_toml(v: &toml::Value) -> (s: String)
    requires
        well_formed(toml_tree(*v)),
    ensures
        s@ == toml_display(toml_tree(*v)),
{
    v.to_string()
}

/// Writes a value as JSON over several lines.
///
/// Trusted: `serde_json::to_string_pretty` on a `toml::Value`, whose result is a function of what
/// the value holds. It writes to memory, and names are texts, so that it does not fail. It may
/// panic on a date with parts out of their ranges.
#[verifier::external_body]
fn toml_to_json(v: &toml::Value) -> (s: String)
    requires
        well_formed(toml_tree(*v)),
    ensures
        s@ == toml_as_json(toml_tree(*v)),
{
    serde_json::to_string_pretty(v).expect("a TOML value can be written as JSON")
}

fn from_toml(v: toml::Value) -> (r: ConfigValue)
    requires
        well_formed(toml_tree(v)),
    ensures
        r@ == toml_tree(v),
        well_formed(r@),
    decreases toml_tree(v),
{
    let ghost tree = toml_tree(v);
    match open_toml(v) {
        TomlLevel::String(s) => ConfigValue::String(s),
        TomlLevel::Integer(i) => ConfigValue::Integer(i),
        TomlLevel::Boolean(b) => ConfigValue::Boolean(b),
        TomlLevel::Array(items) => {
            assert(decreases_to!(tree => tree->Array_0));
            assert(forall|i: int|
                0 <= i < items@.len() ==> #[trigger] toml_tree(items@[i]) == tree->Array_0[i]);
            let out = ConfigValue::Array(from_toml_items(items));
            assert(out@->Array_0 =~= tree->Array_0);
            out
        },
        TomlLevel::Table(entries) => {
            assert(decreases_to!(tree => tree->Table_0));
            assert(forall|i: int|
                0 <= i < entries@.len() ==> #[trigger] toml_tree(entries@[i].1)
                    == tree->Table_0[i].1);
            let out = ConfigValue::Table(from_toml_entries(entries));
            assert(out@->Table_0 =~= tree->Table_0);
            out
        },
        TomlLevel::Float(n) => ConfigValue::Float(n),
        TomlLevel::Date(d) => ConfigValue::Date(open_date(&d)),
    }
}

fn from_toml_items(items: Vec<toml::Value>) -> (r: Vec<ConfigValue>)
    requires
        forall|i: int| 0 <= i < items@.len() ==> well_formed(#[trigger] toml_tree(items@[i])),
    ensures
        value_items(r@) == toml_trees(items@),
        forall|i: int| 0 <= i < r@.len() ==> well_formed((#[trigger] r@[i])@),
    decreases toml_trees(items@),
{
    let ghost all = items@;
    let mut out: Vec<ConfigValue> = Vec::new();
    for item in it: items
        invariant
            it.seq() == all,
            all == items@,
            forall|i: int| 0 <= i < all.len() ==> well_formed(#[trigger] toml_tree(all[i])),
            out@.len() == it.index(),
            forall|i: int|
                0 <= i < out@.len() ==> (#[trigger] out@[i])@ == toml_tree(all[i]) && well_formed(
                    out@[i]@,
                ),
    {
        assert(decreases_to!(toml_trees(all) => toml_trees(all)[it.index()]));
        assert(well_formed(toml_tree(all[it.index()])));
        out.push(from_toml(item));
    }
    assert(value_items(out@) =~= toml_trees(all));
    out
}

fn from_toml_entries(entries: Vec<(String, toml::Value)>) -> (r: Vec<(String, ConfigValue)>)
    requires
        forall|i: int| 0 <= i < entries@.len() ==> well_formed(#[trigger] toml_tree(entries@[i].1)),
    ensures
        value_entries(r@) == toml_entry_trees(entries@),
        forall|i: int| 0 <= i < r@.len() ==> well_formed((#[trigger] r@[i]).1@),
    decreases toml_entry_trees(entries@),
{
    let ghost all = entries@;
    let mut out: Vec<(String, ConfigValue)> = Vec::new();
    for item in it: entries
        invariant
            it.seq() == all,
            all == entries@,
            forall|i: int| 0 <= i < all.len() ==> well_formed(#[trigger] toml_tree(all[i].1)),
            out@.len() == it.index(),
            forall|i: int|
                0 <= i < out@.len() ==> (#[trigger] out@[i]).0@ == all[i].0@ && out@[i].1@
                    == toml_tree(all[i].1) && well_formed(out@[i].1@),
    {
        let ghost pair = toml_entry_trees(all)[it.index()];
        assert(decreases_to!(toml_entry_trees(all) => pair));
        assert(decreases_to!(pair => pair.1));
        assert(well_formed(toml_tree(all[it.index()].1)));
        let (name, value) = item;
        out.push((name, from_toml(value)));
    }
    assert(value_entries(out@) =~= toml_entry_trees(all));
    out
}

fn to_toml(v: &ConfigValue) -> (r: toml::Value)
    requires
        well_formed(v@),
    ensures
        toml_tree(r) == v@,
    decreases v,
{
    match v {
        ConfigValue::String(s) => close_toml(TomlLevel::String(s.clone())),
        ConfigValue::Integer(i) => close_toml(TomlLevel::Integer(*i)),
        ConfigValue::Boolean(b) => close_toml(TomlLevel::Boolean(*b)),
        ConfigValue::Float(n) => close_toml(TomlLevel::Float(copy_toml(n))),
        ConfigValue::Date(d) => close_toml(TomlLevel::Date(close_date(d))),
        ConfigValue::Array(items) => {
            let mut out: Vec<toml::Value> = Vec::new();
            let mut i: usize = 0;
            proof {
                value_array_view(*items);
            }
            while i < items.len()
                invariant
                    v is Array,
                    v->Array_0 == *items,
                    i == out@.len(),
                    i <= items@.len(),
                    well_formed(Tree::Array(value_items(items@))),
                    toml_trees(out@) == value_items(items@).take(i as int),
                decreases items@.len() - i,
            {
                let ghost tree = Tree::Array(value_items(items@));
                assert(well_formed(tree->Array_0[i as int]));
                let ghost done = toml_trees(out@);
                assert(decreases_to!(v => items@[i as int]));
                let item = to_toml(&items[i]);
                out.push(item);
                assert(toml_trees(out@) =~= done.push(toml_tree(item)));
                assert(value_items(items@).take(i + 1) =~= done.push(items@[i as int]@));
                i = i + 1;
            }
            assert(value_items(items@).take(i as int) =~= value_items(items@));
            close_toml(TomlLevel::Array(out))
        },
        ConfigValue::Table(entries) => {
            let mut out: Vec<(String, toml::Value)> = Vec::new();
            let mut i: usize = 0;
            proof {
                value_table_view(*entries);
            }
            while i < entries.len()
                invariant
                    v is Table,
                    v->Table_0 == *entries,
                    i == out@.len(),
                    i <= entries@.len(),
                    well_formed(Tree::Table(value_entries(entries@))),
                    toml_entry_trees(out@) == value_entries(entries@).take(i as int),
                decreases entries@.len() - i,
            {
                let ghost tree = Tree::Table(value_entries(entries@));
                assert(well_formed(tree->Table_0[i as int].1));
                let ghost done = toml_entry_trees(out@);
                assert(decreases_to!(v => entries@[i as int].1));
                let item = to_toml(&entries[i].1);
                let name = entries[i].0.clone();
                out.push((name, item));
                assert(toml_entry_trees(out@) =~= done.push((name@, toml_tree(item))));
                assert(value_entries(entries@).take(i + 1) =~= done.push((name@, toml_tree(item))));
                i = i + 1;
            }
            assert(value_entries(entries@).take(i as int) =~= value_entries(entries@));
            close_toml(TomlLevel::Table(out))
        },
    }
}

// ---------------------------------------------------------------------------------------------
// The configuration file
// ---------------------------------------------------------------------------------------------

impl ConfigValue {
    /// A text.
    pub fn text(s: &str) -> (v: ConfigValue)
        ensures
            v@ == Tree::Text(s@),
            well_formed(v@),
    {
        ConfigValue::String(s.to_string())
    }

    /// A table without entries.
    pub fn table() -> (v: ConfigValue)
        ensures
            v@ == Tree::Table(Seq::empty()),
            well_formed(v@),
    {
        let entries: Vec<(String, ConfigValue)> = Vec::new();
        proof {
            value_table_view(entries);
            assert(value_entries(entries@) =~= Seq::empty());
        }
        ConfigValue::Table(entries)
    }

    /// The table with `value` under the name `k`.
    pub fn with(self, k: &str, value: ConfigValue) -> (v: ConfigValue)
        requires
            self@ is Table,
            well_formed(self@),
            well_formed(value@),
        ensures
            v@ == Tree::Table(put(self@->Table_0, k@, value@)),
            well_formed(v@),
    {
        match self {
            ConfigValue::Table(entries) => {
                let mut entries = entries;
                let ghost tree = value@;
                let ghost all = value_entries(entries@);
                proof {
                    value_table_view(entries);
                    put_of_mapped(named(entries@), |x: ConfigValue| x@, k@, value);
                    put_is_well_formed(all, k@, tree);
                }
                put_entry(&mut entries, k, value);
                proof {
                    value_table_view(entries);
                    assert(mapped(named(entries@), |x: ConfigValue| x@) == put(all, k@, tree));
                }
                ConfigValue::Table(entries)
            },
            _ => self,
        }
    }

    /// The characters of a text.
    pub fn as_str(&self) -> (r: Option<&str>)
        ensures
            match r {
                Some(s) => self@ == Tree::Text(s@),
                None => !(self@ is Text),
            },
    {
        match self {
            ConfigValue::String(s) => Some(s.as_str()),
            _ => None,
        }
    }

    /// The integer.
    pub fn as_integer(&self) -> (r: Option<i64>)
        ensures
            match r {
                Some(i) => self@ == Tree::Integer(i),
                None => !(self@ is Integer),
            },
    {
        match self {
            ConfigValue::Integer(i) => Some(*i),
            _ => None,
        }
    }

    /// Writes the value on its own.
    pub fn show(&self) -> (s: String)
        requires
            well_formed(self@),
        ensures
            s@ == toml_display(self@),
    {
        show_toml(&to_toml(self))
    }

    /// Writes the value as JSON over several lines.
    pub fn to_json(&self) -> (s: String)
        requires
            well_formed(self@),
        ensures
            s@ == toml_as_json(self@),
    {
        toml_to_json(&to_toml(self))
    }
}

/// An array of texts.
pub open spec fn texts(s: Seq<Seq<char>>) -> Tree {
    Tree::Array(Seq::new(s.len(), |i: int| Tree::Text(s[i])))
}

/// An array of texts.
fn text_array(items: Vec<String>) -> (v: ConfigValue)
    ensures
        v@ == texts(views(items@)),
        well_formed(v@),
{
    let ghost all = items@;
    let mut out: Vec<ConfigValue> = Vec::new();
    for item in it: items
        invariant
            it.seq() == all,
            out@.len() == it.index(),
            forall|i: int|
                0 <= i < out@.len() ==> (#[trigger] out@[i])@ == Tree::Text(all[i]@),
    {
        out.push(ConfigValue::String(item));
    }
    proof {
        value_array_view(out);
        assert(value_items(out@) =~= texts(views(all))->Array_0);
        assert forall|i: int| 0 <= i < out@.len() implies well_formed(
            #[trigger] value_items(out@)[i],
        ) by {
            assert(out@[i]@ == Tree::Text(all[i]@));
        }
    }
    ConfigValue::Array(out)
}

/// The server part of the default configuration.
pub open spec fn default_server() -> Tree {
    Tree::Table(
        put(
            put(
                put(
                    put(Seq::empty(), "llmApi"@, Tree::Text("openai-realtime"@)),
                    "baseUrl"@,
                    Tree::Text("http://127.0.0.1:8000/v1"@),
                ),
                "apiKey"@,
                Tree::Text(""@),
            ),
            "model"@,
            Tree::Text("voxtral"@),
        ),
    )
}

/// The audio part of the default configuration.
pub open spec fn default_audio() -> Tree {
    Tree::Table(
        put(
            put(
                put(Seq::empty(), "device"@, Tree::Text("default"@)),
                "sample_rate"@,
                Tree::Integer(16_000),
            ),
            "channels"@,
            Tree::Integer(1),
        ),
    )
}

/// The hooks of the default configuration.
pub open spec fn default_hooks() -> Tree {
    Tree::Table(
        put(
            put(
                put(Seq::empty(), "start"@, texts(seq!["show_ui"@])),
                "stop"@,
                texts(seq!["hide_ui"@, "copy"@]),
            ),
            "stop_insert"@,
            texts(seq!["hide_ui"@, "stash"@, "copy"@, "paste"@, "sleep 120"@, "unstash"@]),
        ),
    )
}

/// The default configuration.
pub open spec fn default_tree() -> Tree {
    let transcribe = Tree::Table(put(Seq::empty(), "transcribe"@, default_hooks()));
    let event = Tree::Table(put(Seq::empty(), "hooks"@, transcribe));
    Tree::Table(
        put(
            put(put(Seq::empty(), "server"@, default_server()), "audio"@, default_audio()),
            "event"@,
            event,
        ),
    )
}

/// The configuration that holds where no file says otherwise.
pub fn default_config() -> (v: ConfigValue)
    ensures
        v@ == default_tree(),
        well_formed(v@),
{
    let server = ConfigValue::table().with("llmApi", ConfigValue::text("openai-realtime")).with(
        "baseUrl",
        ConfigValue::text("http://127.0.0.1:8000/v1"),
    ).with("apiKey", ConfigValue::text("")).with("model", ConfigValue::text("voxtral"));
    let audio = ConfigValue::table().with("device", ConfigValue::text("default")).with(
        "sample_rate",
        ConfigValue::Integer(16_000),
    ).with("channels", ConfigValue::Integer(1));
    let start: Vec<String> = vec!["show_ui".to_string()];
    assert(views(start@) =~= seq!["show_ui"@]);
    let stop: Vec<String> = vec!["hide_ui".to_string(), "copy".to_string()];
    assert(views(stop@) =~= seq!["hide_ui"@, "copy"@]);
    let insert: Vec<String> = vec![
        "hide_ui".to_string(),
        "stash".to_string(),
        "copy".to_string(),
        "paste".to_string(),
        "sleep 120".to_string(),
        "unstash".to_string(),
    ];
    assert(views(insert@) =~= seq![
        "hide_ui"@,
        "stash"@,
        "copy"@,
        "paste"@,
        "sleep 120"@,
        "unstash"@,
    ]);
    let hooks = ConfigValue::table().with("start", text_array(start)).with(
        "stop",
        text_array(stop),
    ).with("stop_insert", text_array(insert));
    let event = ConfigValue::table().with("hooks", ConfigValue::table().with("transcribe", hooks));
    ConfigValue::table().with("server", server).with("audio", audio).with("event", event)
}

/// Where the configuration file lies: where `OMNI_CONFIG_FILE` says, else under
/// `XDG_CONFIG_HOME`, else under the home directory.
pub open spec fn config_file(
    custom: Option<&str>,
    xdg: Option<&str>,
    home: Option<&str>,
) -> Option<Seq<char>> {
    match given(custom) {
        Some(path) => Some(path),
        None => match given(xdg) {
            Some(dir) => Some(joined_path(joined_path(dir, "omni"@), "config.toml"@)),
            None => match home {
                Some(home) => Some(
                    joined_path(
                        joined_path(joined_path(home@, ".config"@), "omni"@),
                        "config.toml"@,
                    ),
                ),
                None => None,
            },
        },
    }
}

/// Where the configuration file lies, given the values of `OMNI_CONFIG_FILE` and
/// `XDG_CONFIG_HOME` and the home directory.
pub fn config_path(custom: Option<&str>, xdg: Option<&str>, home: Option<&str>) -> (r: Result<
    String,
    Error,
>)
    ensures
        match config_file(custom, xdg, home) {
            Some(path) => r is Ok && r->Ok_0@ == path,
            None => fails_with(r, "failed to resolve home directory"@),
        },
{
    if let Some(path) = given_text(custom) {
        return Ok(path.to_string());
    }
    if let Some(dir) = given_text(xdg) {
        return Ok(join_path(join_path(dir, "omni").as_str(), "config.toml"));
    }
    match home {
        Some(home) => Ok(
            join_path(
                join_path(join_path(home, ".config").as_str(), "omni").as_str(),
                "config.toml",
            ),
        ),
        None => Err(Error::new("failed to resolve home directory")),
    }
}

/// The configuration that the file at `path` with this text holds; the default one where there is
/// no file.
pub fn load_config(path: &str, text: Option<&str>) -> (r: Result<ConfigValue, Error>)
    ensures
        r is Ok ==> well_formed(r->Ok_0@),
        match text {
            None => r is Ok && r->Ok_0@ == default_tree(),
            Some(text) => match toml_parsed(text@) {
                Some(t) => r is Ok && r->Ok_0@ == t,
                None => fails_from(
                    r,
                    "failed parsing TOML config: "@ + path@,
                    toml_problem(text@),
                ),
            },
        },
{
    match text {
        None => Ok(default_config()),
        Some(text) => match read_toml(text) {
            Ok(v) => Ok(from_toml(v)),
            Err(problem) => {
                let mut message = "failed parsing TOML config: ".to_string();
                message.append(path);
                Err(Error { message, cause: Some(problem) })
            },
        },
    }
}

/// The text of the file that keeps the configuration. A plain configuration can be saved, and is
/// what `load_config` reads from the text.
pub fn save_config(config: &ConfigValue) -> (r: Result<String, Error>)
    requires
        well_formed(config@),
    ensures
        match toml_pretty(config@) {
            Some(text) => r is Ok && r->Ok_0@ == text,
            None => fails_from(r, "failed serializing TOML config"@, toml_refusal(config@)),
        },
        keeps(config@) ==> r is Ok && toml_parsed(r->Ok_0@) == Some(config@),
{
    match write_toml(&to_toml(config)) {
        Ok(text) => Ok(text),
        Err(problem) => Err(Error::caused("failed serializing TOML config", problem)),
    }
}

// ---------------------------------------------------------------------------------------------
// Laws of keys and values
// ---------------------------------------------------------------------------------------------

/// Whether a text is a name of its own in a key: it holds no dot, and neither begins nor ends with
/// white space.
pub open spec fn is_name(s: Seq<char>) -> bool {
    s.len() > 0 && !s.contains('.') && !is_white_char(s[0]) && !is_white_char(s.last())
}

proof fn one_name(a: Seq<char>)
    requires
        is_name(a),
    ensures
        key_path(a) == seq![a],
{
    assert(trimmed(a) == a) by {
        tight_text_stays(a);
    }
    key_without_dots(a);
}

/// A key that is one name goes through that name, and one of two names with a dot between them goes
/// through the two in turn.
pub proof fn names_of_a_key(a: Seq<char>, b: Seq<char>)
    requires
        is_name(a),
        is_name(b),
    ensures
        key_path(a) == seq![a],
        key_path(a.push('.') + b) == seq![a, b],
{
    one_name(a);
    one_name(b);
    assert(key_path(a.push('.') + b) == key_path(a) + key_path(b)) by {
        key_path_after_dot(a, b);
    }
    assert(seq![a] + seq![b] =~= seq![a, b]);
}

/// The parts of a key are its names, in their order.
pub proof fn parts_are_the_names(key: &str, a: Seq<char>, b: Seq<char>, r: Result<Vec<String>, Error>)
    requires
        call_ensures(key_parts, (key,), r),
        is_name(a),
        is_name(b),
    ensures
        key@ == a ==> r is Ok && r->Ok_0@.len() == 1 && r->Ok_0@[0]@ == a,
        key@ == a.push('.') + b ==> r is Ok && r->Ok_0@.len() == 2 && r->Ok_0@[0]@ == a
            && r->Ok_0@[1]@ == b,
        key@.len() == 0 ==> r is Err,
{
    names_of_a_key(a, b);
    if r is Ok {
        let names = views(r->Ok_0@);
        assert(names.len() == r->Ok_0@.len());
        assert(names[0] == r->Ok_0@[0]@);
        if names.len() > 1 {
            assert(names[1] == r->Ok_0@[1]@);
        }
    }
    if key@.len() == 0 {
        assert(key@ =~= Seq::empty());
        assert(pieces(key@, '.') =~= seq![Seq::<char>::empty()]);
        clean_of_one(Seq::empty());
        tight_text_stays(Seq::empty());
    }
}

/// What a key of one name, or of two, leads to is what stands under these names.
pub proof fn get_reads_what_stands_there(
    config: &ConfigValue,
    key: &str,
    r: Option<&ConfigValue>,
    entries: Seq<(Seq<char>, Tree)>,
    inner: Seq<(Seq<char>, Tree)>,
    a: Seq<char>,
    b: Seq<char>,
)
    requires
        call_ensures(get_value_by_key, (config, key), r),
        config@ == Tree::Table(entries),
        is_name(a),
        is_name(b),
    ensures
        key@ == a && lookup(entries, a) is Some ==> r is Some && r->0@ == lookup(entries, a)->0,
        key@ == a && lookup(entries, a) is None ==> r is None,
        key@ == a.push('.') + b && lookup(entries, a) == Some(Tree::Table(inner)) ==> {
            &&& lookup(inner, b) is Some ==> r is Some && r->0@ == lookup(inner, b)->0
            &&& lookup(inner, b) is None ==> r is None
        },
        key@ == a.push('.') + b && lookup(entries, a) is None ==> r is None,
{
    names_of_a_key(a, b);
    values_under_names(config@, entries, inner, a, b);
}

proof fn values_under_names(
    t: Tree,
    entries: Seq<(Seq<char>, Tree)>,
    inner: Seq<(Seq<char>, Tree)>,
    a: Seq<char>,
    b: Seq<char>,
)
    requires
        t == Tree::Table(entries),
    ensures
        at_path(t, seq![a]) == lookup(entries, a),
        lookup(entries, a) is None ==> at_path(t, seq![a, b]) is None,
        lookup(entries, a) == Some(Tree::Table(inner)) ==> at_path(t, seq![a, b]) == lookup(
            inner,
            b,
        ),
{
    reveal_with_fuel(at_path, 3);
    assert(seq![a].drop_first() =~= Seq::empty());
    assert(seq![a, b].drop_first() =~= seq![b]);
    assert(seq![b].drop_first() =~= Seq::empty());
}

/// Paths that have different names at some position lie apart.
pub proof fn different_names_lie_apart(p: Seq<Seq<char>>, q: Seq<Seq<char>>, i: int)
    requires
        0 <= i < p.len(),
        i < q.len(),
        p[i] != q[i],
    ensures
        apart(p, q),
    decreases i,
{
    if i > 0 && p[0] == q[0] {
        different_names_lie_apart(p.drop_first(), q.drop_first(), i - 1);
    }
}

/// What was set under a key is what is read under it, to the value, and every key whose names are
/// others leads to what it led to before.
pub proof fn set_value_is_read_back(
    config: &mut ConfigValue,
    key: &str,
    value: ConfigValue,
    r: Result<(), Error>,
    before: &ConfigValue,
    after: &ConfigValue,
    got: Option<&ConfigValue>,
    other: &str,
    i: int,
    there: Option<&ConfigValue>,
    then: Option<&ConfigValue>,
)
    requires
        call_ensures(set_value_by_key, (config, key, value), r),
        *before == *old(config),
        *after == *final(config),
        r is Ok,
        call_ensures(get_value_by_key, (after, key), got),
        call_ensures(get_value_by_key, (before, other), there),
        call_ensures(get_value_by_key, (after, other), then),
        0 <= i < key_path(key@).len(),
        i < key_path(other@).len(),
        key_path(key@)[i] != key_path(other@)[i],
    ensures
        got is Some,
        got->0@ == value@,
        there is Some <==> then is Some,
        there is Some ==> then->0@ == there->0@,
{
    get_after_set(before@, key_path(key@), value@);
    different_names_lie_apart(key_path(key@), key_path(other@), i);
    set_leaves_the_rest(before@, key_path(key@), value@, key_path(other@));
}

/// A key with a name in it can be set and removed; one without is refused, and nothing changes.
pub proof fn keys_without_a_name_are_refused(
    config: &mut ConfigValue,
    key: &str,
    value: ConfigValue,
    r: Result<(), Error>,
    i: int,
)
    requires
        call_ensures(set_value_by_key, (config, key, value), r),
    ensures
        0 <= i < key@.len() && key@[i] != '.' && !is_white_char(key@[i]) ==> r is Ok,
        key@.len() == 0 ==> r is Err && r->Err_0.message@ == "config key cannot be empty"@
            && *final(config) == *old(config),
{
    if 0 <= i < key@.len() && key@[i] != '.' && !is_white_char(key@[i]) {
        key_with_a_name(key@, i);
    }
    if key@.len() == 0 {
        assert(key@ =~= Seq::empty());
        assert(pieces(key@, '.') =~= seq![Seq::<char>::empty()]);
        clean_of_one(Seq::empty());
        tight_text_stays(Seq::empty());
    }
}

/// What was removed is not read any more, it is said whether there was anything, and every key whose
/// names are others leads to what it led to before.
pub proof fn removed_value_is_gone(
    config: &mut ConfigValue,
    key: &str,
    r: Result<bool, Error>,
    before: &ConfigValue,
    after: &ConfigValue,
    had: Option<&ConfigValue>,
    got: Option<&ConfigValue>,
    other: &str,
    i: int,
    there: Option<&ConfigValue>,
    then: Option<&ConfigValue>,
)
    requires
        well_formed(old(config)@),
        call_ensures(unset_value_by_key, (config, key), r),
        *before == *old(config),
        *after == *final(config),
        r is Ok,
        call_ensures(get_value_by_key, (before, key), had),
        call_ensures(get_value_by_key, (after, key), got),
        call_ensures(get_value_by_key, (before, other), there),
        call_ensures(get_value_by_key, (after, other), then),
        0 <= i < key_path(key@).len(),
        i < key_path(other@).len(),
        key_path(key@)[i] != key_path(other@)[i],
    ensures
        got is None,
        r->Ok_0 <==> had is Some,
        there is Some <==> then is Some,
        there is Some ==> then->0@ == there->0@,
{
    get_after_unset(before@, key_path(key@));
    different_names_lie_apart(key_path(key@), key_path(other@), i);
    unset_leaves_the_rest(before@, key_path(key@), key_path(other@));
}

// ---------------------------------------------------------------------------------------------
// Laws of the defaults and the file
// ---------------------------------------------------------------------------------------------

proof fn value_of_two_names(
    t: Tree,
    entries: Seq<(Seq<char>, Tree)>,
    inner: Seq<(Seq<char>, Tree)>,
    a: Seq<char>,
    b: Seq<char>,
    key: Seq<char>,
)
    requires
        t == Tree::Table(entries),
        lookup(entries, a) == Some(Tree::Table(inner)),
        is_name(a),
        is_name(b),
        key == a.push('.') + b,
    ensures
        value_at(t, key) == lookup(inner, b),
{
    names_of_a_key(a, b);
    values_under_names(t, entries, inner, a, b);
}

/// What the configuration says of the server where no file says otherwise.
pub proof fn default_server_is_local(config: ConfigValue)
    requires
        call_ensures(default_config, (), config),
    ensures
        value_at(config@, "server.llmApi"@) == Some(Tree::Text("openai-realtime"@)),
        value_at(config@, "server.baseUrl"@) == Some(Tree::Text("http://127.0.0.1:8000/v1"@)),
        value_at(config@, "server.apiKey"@) == Some(Tree::Text(Seq::empty())),
        value_at(config@, "server.model"@) == Some(Tree::Text("voxtral"@)),
{
    let entries = config@->Table_0;
    let inner = default_server()->Table_0;
    let none = Seq::<(Seq<char>, Tree)>::empty();
    default_parts();
    reveal_strlit("server.llmApi");
    reveal_strlit("server.baseUrl");
    reveal_strlit("server.apiKey");
    reveal_strlit("server.model");
    reveal_strlit("server");
    reveal_strlit("llmApi");
    reveal_strlit("baseUrl");
    reveal_strlit("apiKey");
    reveal_strlit("model");
    reveal_strlit("");
    assert(""@ =~= Seq::<char>::empty());
    assert("llmApi"@[0] == 'l' && "baseUrl"@[0] == 'b' && "apiKey"@[0] == 'a' && "model"@[0]
        == 'm');
    let a = put(none, "llmApi"@, Tree::Text("openai-realtime"@));
    let b = put(a, "baseUrl"@, Tree::Text("http://127.0.0.1:8000/v1"@));
    let c = put(b, "apiKey"@, Tree::Text(""@));
    lookups_after_put(none, "llmApi"@, Tree::Text("openai-realtime"@));
    lookups_after_put(a, "baseUrl"@, Tree::Text("http://127.0.0.1:8000/v1"@));
    lookups_after_put(b, "apiKey"@, Tree::Text(""@));
    lookups_after_put(c, "model"@, Tree::Text("voxtral"@));
    assert(is_name("server"@));
    assert(is_name("llmApi"@));
    assert(is_name("baseUrl"@));
    assert(is_name("apiKey"@));
    assert(is_name("model"@));
    assert("server.llmApi"@ =~= "server"@.push('.') + "llmApi"@);
    assert("server.baseUrl"@ =~= "server"@.push('.') + "baseUrl"@);
    assert("server.apiKey"@ =~= "server"@.push('.') + "apiKey"@);
    assert("server.model"@ =~= "server"@.push('.') + "model"@);
    value_of_two_names(config@, entries, inner, "server"@, "llmApi"@, "server.llmApi"@);
    value_of_two_names(config@, entries, inner, "server"@, "baseUrl"@, "server.baseUrl"@);
    value_of_two_names(config@, entries, inner, "server"@, "apiKey"@, "server.apiKey"@);
    value_of_two_names(config@, entries, inner, "server"@, "model"@, "server.model"@);
}

/// What the configuration says of the audio where no file says otherwise.
pub proof fn default_audio_is_plain(config: ConfigValue)
    requires
        call_ensures(default_config, (), config),
    ensures
        value_at(config@, "audio.device"@) == Some(Tree::Text("default"@)),
        value_at(config@, "audio.sample_rate"@) == Some(Tree::Integer(16_000)),
        value_at(config@, "audio.channels"@) == Some(Tree::Integer(1)),
{
    let entries = config@->Table_0;
    let inner = default_audio()->Table_0;
    let none = Seq::<(Seq<char>, Tree)>::empty();
    default_parts();
    reveal_strlit("audio.device");
    reveal_strlit("audio.sample_rate");
    reveal_strlit("audio.channels");
    reveal_strlit("audio");
    reveal_strlit("device");
    reveal_strlit("sample_rate");
    reveal_strlit("channels");
    assert("device"@[0] == 'd' && "sample_rate"@[0] == 's' && "channels"@[0] == 'c');
    let a = put(none, "device"@, Tree::Text("default"@));
    let b = put(a, "sample_rate"@, Tree::Integer(16_000));
    lookups_after_put(none, "device"@, Tree::Text("default"@));
    lookups_after_put(a, "sample_rate"@, Tree::Integer(16_000));
    lookups_after_put(b, "channels"@, Tree::Integer(1));
    assert(is_name("audio"@));
    assert(is_name("device"@));
    assert(is_name("sample_rate"@));
    assert(is_name("channels"@));
    assert("audio.device"@ =~= "audio"@.push('.') + "device"@);
    assert("audio.sample_rate"@ =~= "audio"@.push('.') + "sample_rate"@);
    assert("audio.channels"@ =~= "audio"@.push('.') + "channels"@);
    value_of_two_names(config@, entries, inner, "audio"@, "device"@, "audio.device"@);
    value_of_two_names(config@, entries, inner, "audio"@, "sample_rate"@, "audio.sample_rate"@);
    value_of_two_names(config@, entries, inner, "audio"@, "channels"@, "audio.channels"@);
}

proof fn default_parts()
    ensures
        default_tree() is Table,
        lookup(default_tree()->Table_0, "server"@) == Some(default_server()),
        lookup(default_tree()->Table_0, "audio"@) == Some(default_audio()),
{
    reveal_strlit("server");
    reveal_strlit("audio");
    reveal_strlit("event");
    assert("server"@[0] == 's' && "audio"@[0] == 'a' && "event"@[0] == 'e');
    let none = Seq::<(Seq<char>, Tree)>::empty();
    let transcribe = Tree::Table(put(none, "transcribe"@, default_hooks()));
    let event = Tree::Table(put(none, "hooks"@, transcribe));
    let a = put(none, "server"@, default_server());
    let b = put(a, "audio"@, default_audio());
    lookups_after_put(none, "server"@, default_server());
    lookups_after_put(a, "audio"@, default_audio());
    lookups_after_put(b, "event"@, event);
}

/// The default hooks: the interface is shown at the start and hidden at the end; the transcript is
/// copied at the end, and pasted where it is to be inserted, with the clipboard put aside before and
/// put back after.
pub proof fn default_hooks_are_usual(hooks: Seq<(Seq<char>, Tree)>)
    requires
        default_hooks() == Tree::Table(hooks),
    ensures
        lookup(hooks, "start"@) == Some(texts(seq!["show_ui"@])),
        lookup(hooks, "stop"@) == Some(texts(seq!["hide_ui"@, "copy"@])),
        lookup(hooks, "stop_insert"@) == Some(
            texts(seq!["hide_ui"@, "stash"@, "copy"@, "paste"@, "sleep 120"@, "unstash"@]),
        ),
{
    reveal_strlit("start");
    reveal_strlit("stop");
    reveal_strlit("stop_insert");
    assert("start"@.len() == 5 && "stop"@.len() == 4 && "stop_insert"@.len() == 11);
    let none = Seq::<(Seq<char>, Tree)>::empty();
    let start = texts(seq!["show_ui"@]);
    let stop = texts(seq!["hide_ui"@, "copy"@]);
    let insert = texts(
        seq!["hide_ui"@, "stash"@, "copy"@, "paste"@, "sleep 120"@, "unstash"@],
    );
    let a = put(none, "start"@, start);
    let b = put(a, "stop"@, stop);
    lookups_after_put(none, "start"@, start);
    lookups_after_put(a, "stop"@, stop);
    lookups_after_put(b, "stop_insert"@, insert);
}

/// Without a file the configuration is the default one; with a file it is what the file says, and
/// nothing else; a file that cannot be read is named in the refusal.
pub proof fn file_decides(
    path: &str,
    text: Option<&str>,
    r: Result<ConfigValue, Error>,
    default: ConfigValue,
)
    requires
        call_ensures(load_config, (path, text), r),
        call_ensures(default_config, (), default),
    ensures
        text is None ==> r is Ok && r->Ok_0@ == default@,
        text is Some && toml_parsed(text->0@) is Some ==> r is Ok && r->Ok_0@ == toml_parsed(
            text->0@,
        )->0,
        text is Some && toml_parsed(text->0@) is None ==> r is Err && r->Err_0.message@
            == "failed parsing TOML config: "@ + path@,
{
}

/// A plain configuration that was saved is loaded as it was.
pub proof fn saved_configuration_is_loaded(
    config: &ConfigValue,
    saved: Result<String, Error>,
    path: &str,
    text: &str,
    loaded: Result<ConfigValue, Error>,
)
    requires
        keeps(config@),
        call_ensures(save_config, (config,), saved),
        saved is Ok ==> text@ == saved->Ok_0@,
        call_ensures(load_config, (path, Some(text)), loaded),
    ensures
        saved is Ok,
        loaded is Ok,
        loaded->Ok_0@ == config@,
{
}

/// Over defaults, a value of the configuration other than a table stays as it is, and a key that
/// leads nowhere through its tables leads to the default.
pub proof fn configuration_wins_over_defaults(
    defaults: ConfigValue,
    config: ConfigValue,
    r: ConfigValue,
    key: Seq<char>,
)
    requires
        call_ensures(merge_config, (defaults, config), r),
        well_formed(config@),
    ensures
        value_at(config@, key) is Some && !(value_at(config@, key)->0 is Table) ==> value_at(
            r@,
            key,
        ) == value_at(config@, key),
        config@ == Tree::Table(Seq::empty()) ==> value_at(r@, key) == value_at(defaults@, key),
{
    if value_at(config@, key) is Some && !(value_at(config@, key)->0 is Table) {
        merged_keeps_the_values(defaults@, config@, key_path(key));
    }
    if config@ == Tree::Table(Seq::empty()) && key_path(key).len() > 0 {
        let path = key_path(key);
        assert(at_path(config@, path) is None);
        assert forall|n: int| 0 <= n < path.len() implies match #[trigger] at_path(
            config@,
            path.take(n),
        ) {
            Some(on_the_way) => on_the_way is Table,
            None => true,
        } by {
            if n == 0 {
                assert(path.take(0).len() == 0);
            }
        }
        merged_fills_with_defaults(defaults@, config@, path);
    }
}

/// A value that is given as a text is that text, to the character, whatever it looks like; one that
/// is given as JSON is what the JSON is.
pub proof fn given_values_are_kept(
    raw: &str,
    json_value: bool,
    r: Result<ConfigValue, Error>,
    text: Seq<char>,
    truth: bool,
    number: i64,
    parts: Seq<Seq<char>>,
)
    requires
        call_ensures(parse_set_value, (raw, json_value), r),
    ensures
        !json_value ==> r is Ok && r->Ok_0@ == Tree::Text(raw@),
        json_value && json_parsed(raw@) == Some(JsonTree::Text(text)) ==> r is Ok && r->Ok_0@
            == Tree::Text(text),
        json_value && json_parsed(raw@) == Some(JsonTree::Bool(truth)) ==> r is Ok && r->Ok_0@
            == Tree::Boolean(truth),
        json_parsed(raw@) matches Some(JsonTree::Number(n)) ==> (json_value && number_i64(n)
            == Some(number) ==> r is Ok && r->Ok_0@ == Tree::Integer(number)),
        json_value && json_parsed(raw@) == Some(
            JsonTree::Array(Seq::new(parts.len(), |i: int| JsonTree::Text(parts[i]))),
        ) ==> r is Ok && r->Ok_0@ == texts(parts),
        json_value && json_parsed(raw@) == Some(JsonTree::Null) ==> r is Err,
        json_value && json_parsed(raw@) is None ==> r is Err,
{
    let items = Seq::new(parts.len(), |i: int| JsonTree::Text(parts[i]));
    if json_value && json_parsed(raw@) == Some(JsonTree::Array(items)) {
        assert forall|i: int| 0 <= i < items.len() implies from_json(#[trigger] items[i])
            == Some(Tree::Text(parts[i])) by {}
        let t = from_json(JsonTree::Array(items));
        assert(t is Some);
        assert(t->0->Array_0 =~= texts(parts)->Array_0);
    }
}

/// The configuration file is the one that is named, where the name has ink; else it lies under the
/// directory for configurations, else under the home directory.
pub proof fn file_is_as_given(
    custom: Option<&str>,
    xdg: Option<&str>,
    home: Option<&str>,
    r: Result<String, Error>,
    ink: Seq<char>,
)
    requires
        call_ensures(config_path, (custom, xdg, home), r),
        ink.len() > 0,
        ink.last() != '/',
    ensures
        custom is Some && is_ink_of(ink, custom->0@) ==> r is Ok && r->Ok_0@ == ink,
        custom is None && xdg is Some && is_ink_of(ink, xdg->0@) ==> r is Ok && r->Ok_0@ == ink
            + "/"@ + "omni"@ + "/"@ + "config.toml"@,
        custom is None && xdg is None && home is Some && home->0@ == ink ==> r is Ok && r->Ok_0@
            == ink + "/"@ + ".config"@ + "/"@ + "omni"@ + "/"@ + "config.toml"@,
        custom is None && xdg is None && home is None ==> r is Err,
{
    reveal_strlit(".config");
    reveal_strlit("omni");
    assert(".config"@.last() == 'g' && "omni"@.last() == 'i');
    if custom is Some && is_ink_of(ink, custom->0@) {
        ink_is_unique(ink, custom->0@);
    }
    if xdg is Some && is_ink_of(ink, xdg->0@) {
        ink_is_unique(ink, xdg->0@);
    }
    let dir = ink + "/"@ + ".config"@;
    assert(dir.last() == 'g');
    assert((dir + "/"@ + "omni"@).last() == 'i');
    assert((ink + "/"@ + "omni"@).last() == 'i');
}

/// The default hooks stand where hooks are looked for.
pub proof fn default_hooks_are_in_their_place(config: ConfigValue)
    requires
        call_ensures(default_config, (), config),
    ensures
        at_path(config@, seq!["event"@, "hooks"@, "transcribe"@]) == Some(default_hooks()),
{
    reveal_strlit("server");
    reveal_strlit("audio");
    reveal_strlit("event");
    assert("server"@[0] == 's' && "audio"@[0] == 'a' && "event"@[0] == 'e');
    let none = Seq::<(Seq<char>, Tree)>::empty();
    let transcribe = Tree::Table(put(none, "transcribe"@, default_hooks()));
    let event = Tree::Table(put(none, "hooks"@, transcribe));
    let a = put(none, "server"@, default_server());
    let b = put(a, "audio"@, default_audio());
    lookups_after_put(b, "event"@, event);
    lookups_after_put(none, "hooks"@, transcribe);
    lookups_after_put(none, "transcribe"@, default_hooks());
    let path = seq!["event"@, "hooks"@, "transcribe"@];
    assert(path.drop_first() =~= seq!["hooks"@, "transcribe"@]);
    assert(seq!["hooks"@, "transcribe"@].drop_first() =~= seq!["transcribe"@]);
    assert(seq!["transcribe"@].drop_first() =~= Seq::empty());
    reveal_with_fuel(at_path, 4);
}

/// A table of texts that is given as JSON is that table, with every name and every text.
pub proof fn given_tables_are_kept(
    raw: &str,
    r: Result<ConfigValue, Error>,
    names: Seq<Seq<char>>,
    parts: Seq<Seq<char>>,
)
    requires
        call_ensures(parse_set_value, (raw, true), r),
        names.len() == parts.len(),
        json_parsed(raw@) == Some(
            JsonTree::Object(
                Seq::new(parts.len(), |i: int| (names[i], JsonTree::Text(parts[i]))),
            ),
        ),
    ensures
        r is Ok,
        r->Ok_0@ == Tree::Table(Seq::new(parts.len(), |i: int| (names[i], Tree::Text(parts[i])))),
{
    let fields = Seq::new(parts.len(), |i: int| (names[i], JsonTree::Text(parts[i])));
    let t = from_json(JsonTree::Object(fields));
    assert forall|i: int| 0 <= i < fields.len() implies from_json((#[trigger] fields[i]).1)
        == Some(Tree::Text(parts[i])) by {}
    assert(t is Some);
    assert(t->0->Table_0 =~= Seq::new(parts.len(), |i: int| (names[i], Tree::Text(parts[i]))));
}

} // verus!
