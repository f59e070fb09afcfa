//! Association lists kept in the order of their names.
use vstd::prelude::*;

use crate::text::{chars_of, same};

verus! {

/// Whether `a` comes before `b`, character by character.
pub open spec fn before(a: Seq<char>, b: Seq<char>) -> bool
    decreases a.len(),
{
    if b.len() == 0 {
        false
    } else if a.len() == 0 {
        true
    } else if a[0] != b[0] {
        a[0] < b[0]
    } else {
        before(a.drop_first(), b.drop_first())
    }
}

/// No text comes before itself.
pub proof fn before_is_irreflexive(a: Seq<char>)
    ensures
        !before(a, a),
    decreases a.len(),
{
    if a.len() > 0 {
        before_is_irreflexive(a.drop_first());
    }
}

/// The order of texts is transitive.
pub proof fn before_is_transitive(a: Seq<char>, b: Seq<char>, c: Seq<char>)
    requires
        before(a, b),
        before(b, c),
    ensures
        before(a, c),
    decreases a.len(),
{
    if a.len() > 0 && a[0] == b[0] && b[0] == c[0] {
        before_is_transitive(a.drop_first(), b.drop_first(), c.drop_first());
    }
}

/// Of two texts that differ, one comes before the other.
pub proof fn before_is_total(a: Seq<char>, b: Seq<char>)
    ensures
        a == b || before(a, b) || before(b, a),
    decreases a.len(),
{
    if a.len() > 0 && b.len() > 0 && a[0] == b[0] {
        before_is_total(a.drop_first(), b.drop_first());
        if a.drop_first() == b.drop_first() {
            assert(a == seq![a[0]] + a.drop_first());
            assert(b == seq![b[0]] + b.drop_first());
        }
    } else if a.len() == 0 && b.len() == 0 {
        assert(a == b);
    }
}

/// Whether the names are in order, so that none stands twice.
pub open spec fn ordered<V>(s: Seq<(Seq<char>, V)>) -> bool {
    forall|i: int, j: int| 0 <= i < j < s.len() ==> before(#[trigger] s[i].0, #[trigger] s[j].0)
}

/// How many entries at the front come before the name `k`.
pub open spec fn slot<V>(s: Seq<(Seq<char>, V)>, k: Seq<char>) -> int
    decreases s.len(),
{
    if s.len() > 0 && before(s[0].0, k) {
        1 + slot(s.drop_first(), k)
    } else {
        0
    }
}

/// The value that stands first under the name `k`.
pub open spec fn lookup<V>(s: Seq<(Seq<char>, V)>, k: Seq<char>) -> Option<V>
    decreases s.len(),
{
    if s.len() == 0 {
        None
    } else if s[0].0 == k {
        Some(s[0].1)
    } else {
        lookup(s.drop_first(), k)
    }
}

/// `s` with `v` under the name `k`, in the place where that name belongs.
pub open spec fn put<V>(s: Seq<(Seq<char>, V)>, k: Seq<char>, v: V) -> Seq<(Seq<char>, V)> {
    let i = slot(s, k);
    if i < s.len() && s[i].0 == k {
        s.update(i, (k, v))
    } else {
        s.insert(i, (k, v))
    }
}

/// `s` without the name `k`.
pub open spec fn without<V>(s: Seq<(Seq<char>, V)>, k: Seq<char>) -> Seq<(Seq<char>, V)> {
    let i = slot(s, k);
    if i < s.len() && s[i].0 == k {
        s.remove(i)
    } else {
        s
    }
}

/// What the slot of a name is.
pub proof fn slot_bounds<V>(s: Seq<(Seq<char>, V)>, k: Seq<char>)
    ensures
        0 <= slot(s, k) <= s.len(),
        forall|i: int| 0 <= i < slot(s, k) ==> before((#[trigger] s[i]).0, k),
        slot(s, k) < s.len() ==> !before(s[slot(s, k)].0, k),
    decreases s.len(),
{
    if s.len() > 0 && before(s[0].0, k) {
        let rest = s.drop_first();
        slot_bounds(rest, k);
        assert forall|i: int| 0 <= i < slot(s, k) implies before((#[trigger] s[i]).0, k) by {
            if i > 0 {
                assert(rest[i - 1] == s[i]);
            }
        }
        if slot(s, k) < s.len() {
            assert(rest[slot(rest, k)] == s[slot(s, k)]);
        }
    }
}

/// The first entry under a name decides what a lookup finds.
pub proof fn lookup_is_first<V>(s: Seq<(Seq<char>, V)>, k: Seq<char>, n: int)
    requires
        0 <= n <= s.len(),
        forall|i: int| 0 <= i < n ==> (#[trigger] s[i]).0 != k,
    ensures
        n == s.len() ==> lookup(s, k) is None,
        n < s.len() && s[n].0 == k ==> lookup(s, k) == Some(s[n].1),
        lookup(s, k) == lookup(s.skip(n), k),
    decreases n,
{
    if n > 0 {
        assert(s[0].0 != k);
        let rest = s.drop_first();
        assert forall|i: int| 0 <= i < n - 1 implies (#[trigger] rest[i]).0 != k by {
            assert(s[i + 1].0 != k);
        }
        lookup_is_first(rest, k, n - 1);
        assert(rest.skip(n - 1) == s.skip(n));
    } else {
        assert(s.skip(0) == s);
    }
}

/// In an ordered list a name is found in its slot or nowhere.
pub proof fn lookup_in_slot<V>(s: Seq<(Seq<char>, V)>, k: Seq<char>)
    requires
        ordered(s),
    ensures
        lookup(s, k) == if slot(s, k) < s.len() && s[slot(s, k)].0 == k {
            Some(s[slot(s, k)].1)
        } else {
            None
        },
{
    slot_bounds(s, k);
    let i = slot(s, k);
    assert forall|j: int| 0 <= j < i implies (#[trigger] s[j]).0 != k by {
        before_is_irreflexive(k);
    }
    if i < s.len() && s[i].0 == k {
        lookup_is_first(s, k, i);
    } else {
        assert forall|j: int| 0 <= j < s.len() implies (#[trigger] s[j]).0 != k by {
            if j >= i && s[j].0 == k {
                if j > i {
                    assert(before(s[i].0, s[j].0));
                }
            }
            before_is_irreflexive(k);
        }
        lookup_is_first(s, k, s.len() as int);
    }
}

/// What was put under a name is found under it.
pub proof fn lookup_after_put<V>(s: Seq<(Seq<char>, V)>, k: Seq<char>, v: V)
    ensures
        lookup(put(s, k, v), k) == Some(v),
{
    slot_bounds(s, k);
    let t = put(s, k, v);
    let i = slot(s, k);
    assert forall|j: int| 0 <= j < i implies (#[trigger] t[j]).0 != k by {
        assert(before(s[j].0, k));
        before_is_irreflexive(k);
    }
    lookup_is_first(t, k, i);
}

/// A put changes nothing under another name.
pub proof fn lookup_after_put_elsewhere<V>(
    s: Seq<(Seq<char>, V)>,
    k: Seq<char>,
    v: V,
    other: Seq<char>,
)
    requires
        other != k,
    ensures
        lookup(put(s, k, v), other) == lookup(s, other),
{
    slot_bounds(s, k);
    let i = slot(s, k);
    if i < s.len() && s[i].0 == k {
        lookup_of_update(s, i, (k, v), other);
    } else {
        lookup_of_insert(s, i, (k, v), other);
    }
}

proof fn lookup_of_update<V>(s: Seq<(Seq<char>, V)>, i: int, e: (Seq<char>, V), other: Seq<char>)
    requires
        0 <= i < s.len(),
        s[i].0 == e.0,
        other != e.0,
    ensures
        lookup(s.update(i, e), other) == lookup(s, other),
    decreases s.len(),
{
    let t = s.update(i, e);
    if i == 0 {
        assert(t.drop_first() == s.drop_first());
    } else {
        assert(t.drop_first() == s.drop_first().update(i - 1, e));
        lookup_of_update(s.drop_first(), i - 1, e, other);
    }
}

proof fn lookup_of_insert<V>(s: Seq<(Seq<char>, V)>, i: int, e: (Seq<char>, V), other: Seq<char>)
    requires
        0 <= i <= s.len(),
        other != e.0,
    ensures
        lookup(s.insert(i, e), other) == lookup(s, other),
    decreases s.len(),
{
    let t = s.insert(i, e);
    if i == 0 {
        assert(t.drop_first() == s);
    } else {
        assert(t[0] == s[0]);
        assert(t.drop_first() == s.drop_first().insert(i - 1, e));
        lookup_of_insert(s.drop_first(), i - 1, e, other);
    }
}

/// A name that was removed from an ordered list is not found any more.
pub proof fn lookup_after_without<V>(s: Seq<(Seq<char>, V)>, k: Seq<char>)
    requires
        ordered(s),
    ensures
        lookup(without(s, k), k) is None,
{
    slot_bounds(s, k);
    lookup_in_slot(s, k);
    let i = slot(s, k);
    let t = without(s, k);
    if i < s.len() && s[i].0 == k {
        assert forall|j: int| 0 <= j < t.len() implies (#[trigger] t[j]).0 != k by {
            before_is_irreflexive(k);
            if j < i {
                assert(before(s[j].0, s[i].0));
            } else {
                assert(before(s[i].0, s[j + 1].0));
            }
        }
        lookup_is_first(t, k, t.len() as int);
    }
}

/// Removing a name changes nothing under another one.
pub proof fn lookup_after_without_elsewhere<V>(
    s: Seq<(Seq<char>, V)>,
    k: Seq<char>,
    other: Seq<char>,
)
    requires
        other != k,
    ensures
        lookup(without(s, k), other) == lookup(s, other),
{
    slot_bounds(s, k);
    let i = slot(s, k);
    if i < s.len() && s[i].0 == k {
        let t = s.remove(i);
        assert(t.insert(i, s[i]) == s);
        lookup_of_insert(t, i, s[i], other);
    }
}

/// A put keeps the order.
pub proof fn put_keeps_order<V>(s: Seq<(Seq<char>, V)>, k: Seq<char>, v: V)
    requires
        ordered(s),
    ensures
        ordered(put(s, k, v)),
{
    slot_bounds(s, k);
    let n = slot(s, k);
    let t = put(s, k, v);
    if n < s.len() && s[n].0 == k {
        assert forall|i: int, j: int| 0 <= i < j < t.len() implies before(
            #[trigger] t[i].0,
            #[trigger] t[j].0,
        ) by {
            assert(before(s[i].0, s[j].0));
        }
    } else {
        assert forall|i: int, j: int| 0 <= i < j < t.len() implies before(
            #[trigger] t[i].0,
            #[trigger] t[j].0,
        ) by {
            if i < n && j == n {
                assert(before(s[i].0, k));
            } else if i == n {
                before_is_total(k, s[n].0);
                if j > n + 1 {
                    assert(before(s[n].0, s[j - 1].0));
                    before_is_transitive(k, s[n].0, s[j - 1].0);
                }
            } else if i < n && j < n {
                assert(before(s[i].0, s[j].0));
            } else if i < n {
                assert(before(s[i].0, s[j - 1].0));
            } else {
                assert(before(s[i - 1].0, s[j - 1].0));
            }
        }
    }
}

/// A put over a name that was removed is a put over that name.
pub proof fn put_after_without<V>(s: Seq<(Seq<char>, V)>, k: Seq<char>, v: V)
    requires
        ordered(s),
    ensures
        put(without(s, k), k, v) == put(s, k, v),
{
    slot_bounds(s, k);
    let i = slot(s, k);
    if i < s.len() && s[i].0 == k {
        let t = without(s, k);
        slot_bounds(t, k);
        let j = slot(t, k);
        before_is_irreflexive(k);
        if j < i {
            assert(t[j] == s[j]);
        } else if j > i {
            assert(t[i] == s[i + 1]);
            assert(before(s[i].0, s[i + 1].0));
            assert(before(t[i].0, k));
            before_is_transitive(k, t[i].0, k);
        }
        if i < t.len() {
            assert(t[i] == s[i + 1]);
            assert(before(s[i].0, s[i + 1].0));
        }
        assert(put(t, k, v) =~= put(s, k, v));
    }
}

/// Removing a name keeps the order.
pub proof fn without_keeps_order<V>(s: Seq<(Seq<char>, V)>, k: Seq<char>)
    requires
        ordered(s),
    ensures
        ordered(without(s, k)),
{
    slot_bounds(s, k);
    let n = slot(s, k);
    let t = without(s, k);
    if n < s.len() && s[n].0 == k {
        assert forall|i: int, j: int| 0 <= i < j < t.len() implies before(
            #[trigger] t[i].0,
            #[trigger] t[j].0,
        ) by {
            let a = if i < n { i } else { i + 1 };
            let b = if j < n { j } else { j + 1 };
            assert(before(s[a].0, s[b].0));
        }
    }
}

/// The entries with their names as characters.
pub open spec fn named<T>(s: Seq<(String, T)>) -> Seq<(Seq<char>, T)> {
    Seq::new(s.len(), |i: int| (s[i].0@, s[i].1))
}

/// Whether `a` comes before `b`.
pub fn precedes(a: &str, b: &str) -> (r: bool)
    ensures
        r == before(a@, b@),
{
    let left = chars_of(a);
    let right = chars_of(b);
    let mut i: usize = 0;
    proof {
        assert(a@.skip(0) == a@);
        assert(b@.skip(0) == b@);
    }
    while i < left.len() && i < right.len()
        invariant
            left@ == a@,
            right@ == b@,
            i <= left@.len(),
            i <= right@.len(),
            before(a@, b@) == before(a@.skip(i as int), b@.skip(i as int)),
        decreases left@.len() - i,
    {
        proof {
            assert(a@.skip(i as int).drop_first() == a@.skip(i + 1));
            assert(b@.skip(i as int).drop_first() == b@.skip(i + 1));
            assert(a@.skip(i as int)[0] == a@[i as int]);
            assert(b@.skip(i as int)[0] == b@[i as int]);
        }
        if left[i] != right[i] {
            return left[i] < right[i];
        }
        i = i + 1;
    }
    i < right.len()
}

/// How many entries at the front come before the name `k`.
pub fn slot_of<T>(entries: &Vec<(String, T)>, k: &str) -> (i: usize)
    ensures
        i == slot(named(entries@), k@),
        i <= entries@.len(),
{
    let mut i: usize = 0;
    let ghost all = named(entries@);
    assert(all.skip(0) == all);
    while i < entries.len() && precedes(entries[i].0.as_str(), k)
        invariant
            all == named(entries@),
            i <= entries@.len(),
            slot(all, k@) == i + slot(all.skip(i as int), k@),
        decreases entries@.len() - i,
    {
        assert(all.skip(i as int)[0] == all[i as int]);
        assert(all.skip(i as int).drop_first() == all.skip(i + 1));
        i = i + 1;
    }
    proof {
        if i < entries@.len() {
            assert(all.skip(i as int)[0] == all[i as int]);
        }
    }
    i
}

/// Where the name `k` stands first.
pub fn position_of<T>(entries: &Vec<(String, T)>, k: &str) -> (r: Option<usize>)
    ensures
        match r {
            Some(i) => i < entries@.len() && entries@[i as int].0@ == k@ && lookup(
                named(entries@),
                k@,
            ) == Some(entries@[i as int].1) && forall|j: int|
                0 <= j < i ==> (#[trigger] entries@[j]).0@ != k@,
            None => lookup(named(entries@), k@) is None && forall|j: int|
                0 <= j < entries@.len() ==> (#[trigger] entries@[j]).0@ != k@,
        },
{
    let ghost all = named(entries@);
    let mut i: usize = 0;
    while i < entries.len()
        invariant
            all == named(entries@),
            i <= entries@.len(),
            forall|j: int| 0 <= j < i ==> (#[trigger] entries@[j]).0@ != k@,
        decreases entries@.len() - i,
    {
        if same(entries[i].0.as_str(), k) {
            proof {
                assert forall|j: int| 0 <= j < i implies (#[trigger] all[j]).0 != k@ by {
                    assert(entries@[j].0@ != k@);
                }
                lookup_is_first(all, k@, i as int);
            }
            return Some(i);
        }
        i = i + 1;
    }
    proof {
        assert forall|j: int| 0 <= j < i implies (#[trigger] all[j]).0 != k@ by {
            assert(entries@[j].0@ != k@);
        }
        lookup_is_first(all, k@, i as int);
    }
    None
}

/// The list with each value replaced by what `f` makes of it.
pub open spec fn mapped<V, W>(s: Seq<(Seq<char>, V)>, f: spec_fn(V) -> W) -> Seq<(Seq<char>, W)> {
    Seq::new(s.len(), |i: int| (s[i].0, f(s[i].1)))
}

/// The slot of a name is the same in a mapped list.
pub proof fn slot_of_mapped<V, W>(s: Seq<(Seq<char>, V)>, f: spec_fn(V) -> W, k: Seq<char>)
    ensures
        slot(mapped(s, f), k) == slot(s, k),
    decreases s.len(),
{
    if s.len() > 0 {
        assert(mapped(s, f).drop_first() == mapped(s.drop_first(), f));
        slot_of_mapped(s.drop_first(), f, k);
    }
}

/// A lookup in a mapped list finds the mapped value.
pub proof fn lookup_of_mapped<V, W>(s: Seq<(Seq<char>, V)>, f: spec_fn(V) -> W, k: Seq<char>)
    ensures
        lookup(mapped(s, f), k) == match lookup(s, k) {
            Some(v) => Some(f(v)),
            None => None,
        },
    decreases s.len(),
{
    if s.len() > 0 {
        assert(mapped(s, f).drop_first() == mapped(s.drop_first(), f));
        lookup_of_mapped(s.drop_first(), f, k);
    }
}

/// Putting and mapping may change places.
pub proof fn put_of_mapped<V, W>(s: Seq<(Seq<char>, V)>, f: spec_fn(V) -> W, k: Seq<char>, v: V)
    ensures
        put(mapped(s, f), k, f(v)) == mapped(put(s, k, v), f),
{
    slot_of_mapped(s, f, k);
    slot_bounds(s, k);
    assert(put(mapped(s, f), k, f(v)) =~= mapped(put(s, k, v), f));
}

/// Removing and mapping may change places.
pub proof fn without_of_mapped<V, W>(s: Seq<(Seq<char>, V)>, f: spec_fn(V) -> W, k: Seq<char>)
    ensures
        without(mapped(s, f), k) == mapped(without(s, k), f),
{
    slot_of_mapped(s, f, k);
    slot_bounds(s, k);
    assert(without(mapped(s, f), k) =~= mapped(without(s, k), f));
}

/// Mapping keeps the names, and so their order.
pub proof fn order_of_mapped<V, W>(s: Seq<(Seq<char>, V)>, f: spec_fn(V) -> W)
    ensures
        ordered(mapped(s, f)) == ordered(s),
{
    let t = mapped(s, f);
    assert(forall|i: int| 0 <= i < s.len() ==> t[i].0 == s[i].0);
    if ordered(s) {
        assert forall|i: int, j: int| 0 <= i < j < t.len() implies before(
            #[trigger] t[i].0,
            #[trigger] t[j].0,
        ) by {
            assert(before(s[i].0, s[j].0));
        }
    }
    if ordered(t) {
        assert forall|i: int, j: int| 0 <= i < j < s.len() implies before(
            #[trigger] s[i].0,
            #[trigger] s[j].0,
        ) by {
            assert(before(t[i].0, t[j].0));
        }
    }
}

/// Puts `v` under the name `k`, in the place where that name belongs.
pub fn put_entry<T>(entries: &mut Vec<(String, T)>, k: &str, v: T)
    ensures
        named(final(entries)@) == put(named(old(entries)@), k@, v),
{
    let ghost all = named(entries@);
    proof {
        slot_bounds(all, k@);
    }
    let i: usize = slot_of(entries, k);
    let name = k.to_string();
    if i < entries.len() && same(entries[i].0.as_str(), k) {
        entries.set(i, (name, v));
    } else {
        entries.insert(i, (name, v));
    }
    assert(named(entries@) =~= put(all, k@, v));
}

/// Takes out what stands under the name `k`.
pub fn take_entry<T>(entries: &mut Vec<(String, T)>, k: &str) -> (r: Option<T>)
    requires
        ordered(named(old(entries)@)),
    ensures
        named(final(entries)@) == without(named(old(entries)@), k@),
        r == lookup(named(old(entries)@), k@),
{
    let ghost all = named(entries@);
    proof {
        slot_bounds(all, k@);
        lookup_in_slot(all, k@);
    }
    let i: usize = slot_of(entries, k);
    if i < entries.len() && same(entries[i].0.as_str(), k) {
        let (_, v) = entries.remove(i);
        assert(named(entries@) =~= without(all, k@));
        Some(v)
    } else {
        None
    }
}

/// What was put under a name is found under it, and what is under any other name stays.
pub proof fn lookups_after_put<V>(s: Seq<(Seq<char>, V)>, k: Seq<char>, v: V)
    ensures
        lookup(put(s, k, v), k) == Some(v),
        forall|other: Seq<char>|
            other != k ==> #[trigger] lookup(put(s, k, v), other) == lookup(s, other),
{
    lookup_after_put(s, k, v);
    assert forall|other: Seq<char>| other != k implies #[trigger] lookup(put(s, k, v), other)
        == lookup(s, other) by {
        lookup_after_put_elsewhere(s, k, v, other);
    }
}

} // verus!
