//! Text primitives over characters: trimming, splitting, joining, searching and decimal numbers.
use vstd::prelude::*;

verus! {

/// Appends one character.
///
/// Trusted: `String::push` of std adds the character at the end and changes nothing before it.
pub assume_specification[ std::string::String::push ](s: &mut std::string::String, c: char)
    ensures
        final(s)@ == old(s)@.push(c),
;

/// The characters with the Unicode property `White_Space`.
pub open spec fn is_white_char(c: char) -> bool {
    ||| '\u{9}' <= c <= '\u{d}'
    ||| c == '\u{20}'
    ||| c == '\u{85}'
    ||| c == '\u{a0}'
    ||| c == '\u{1680}'
    ||| '\u{2000}' <= c <= '\u{200a}'
    ||| c == '\u{2028}'
    ||| c == '\u{2029}'
    ||| c == '\u{202f}'
    ||| c == '\u{205f}'
    ||| c == '\u{3000}'
}

/// Whether `c` is white space.
pub fn is_white(c: char) -> (b: bool)
    ensures
        b == is_white_char(c),
{
    ('\u{9}' <= c && c <= '\u{d}') || c == '\u{20}' || c == '\u{85}' || c == '\u{a0}' || c
        == '\u{1680}' || ('\u{2000}' <= c && c <= '\u{200a}') || c == '\u{2028}' || c == '\u{2029}'
        || c == '\u{202f}' || c == '\u{205f}' || c == '\u{3000}'
}

/// The characters of `s`.
pub fn chars_of(s: &str) -> (v: Vec<char>)
    ensures
        v@ == s@,
{
    let mut v: Vec<char> = Vec::new();
    for c in it: s.chars()
        invariant
            it.seq() == s@,
            v@ == s@.take(it.index()),
    {
        assert(s@.take(it.index() + 1) == s@.take(it.index()).push(c));
        v.push(c);
    }
    v
}

/// Whether two texts hold the same characters.
pub fn same(a: &str, b: &str) -> (r: bool)
    ensures
        r == (a@ == b@),
{
    let left = chars_of(a);
    let right = chars_of(b);
    if left.len() != right.len() {
        return false;
    }
    let mut i: usize = 0;
    while i < left.len()
        invariant
            left@ == a@,
            right@ == b@,
            left@.len() == right@.len(),
            i <= left@.len(),
            forall|j: int| 0 <= j < i ==> left@[j] == right@[j],
        decreases left@.len() - i,
    {
        if left[i] != right[i] {
            return false;
        }
        i = i + 1;
    }
    assert(left@ =~= right@);
    true
}

// ---------------------------------------------------------------------------------------------
// Trimming
// ---------------------------------------------------------------------------------------------

/// `s` without the white space at its start.
pub open spec fn trimmed_start(s: Seq<char>) -> Seq<char>
    decreases s.len(),
{
    if s.len() > 0 && is_white_char(s[0]) {
        trimmed_start(s.drop_first())
    } else {
        s
    }
}

/// `s` without the white space at its end.
pub open spec fn trimmed_end(s: Seq<char>) -> Seq<char>
    decreases s.len(),
{
    if s.len() > 0 && is_white_char(s.last()) {
        trimmed_end(s.drop_last())
    } else {
        s
    }
}

/// `s` without the white space at either end.
pub open spec fn trimmed(s: Seq<char>) -> Seq<char> {
    trimmed_end(trimmed_start(s))
}

/// `s` without the run of `c` at its end.
pub open spec fn trimmed_end_of(s: Seq<char>, c: char) -> Seq<char>
    decreases s.len(),
{
    if s.len() > 0 && s.last() == c {
        trimmed_end_of(s.drop_last(), c)
    } else {
        s
    }
}

/// The text without the white space at its end.
pub fn trim_end<'a>(s: &'a str) -> (r: &'a str)
    ensures
        r@ == trimmed_end(s@),
{
    let chars = chars_of(s);
    let mut n: usize = chars.len();
    assert(s@.take(n as int) == s@);
    while n > 0 && is_white(chars[n - 1])
        invariant
            chars@ == s@,
            n <= chars@.len(),
            trimmed_end(s@.take(n as int)) == trimmed_end(s@),
        decreases n,
    {
        assert(s@.take(n as int).drop_last() == s@.take(n - 1));
        n = n - 1;
    }
    assert(s@.take(n as int) == s@.subrange(0, n as int));
    s.substring_char(0, n)
}

/// The text without the white space at its start.
pub fn trim_start<'a>(s: &'a str) -> (r: &'a str)
    ensures
        r@ == trimmed_start(s@),
{
    let chars = chars_of(s);
    let mut n: usize = 0;
    assert(s@.skip(0) == s@);
    while n < chars.len() && is_white(chars[n])
        invariant
            chars@ == s@,
            n <= chars@.len(),
            trimmed_start(s@.skip(n as int)) == trimmed_start(s@),
        decreases chars@.len() - n,
    {
        assert(s@.skip(n as int).drop_first() == s@.skip(n + 1));
        n = n + 1;
    }
    assert(s@.skip(n as int) == s@.subrange(n as int, s@.len() as int));
    s.substring_char(n, chars.len())
}

/// The text without the white space at either end.
pub fn trim<'a>(s: &'a str) -> (r: &'a str)
    ensures
        r@ == trimmed(s@),
{
    trim_end(trim_start(s))
}

/// The text without the run of `c` at its end.
pub fn trim_end_of<'a>(s: &'a str, c: char) -> (r: &'a str)
    ensures
        r@ == trimmed_end_of(s@, c),
{
    let chars = chars_of(s);
    let mut n: usize = chars.len();
    assert(s@.take(n as int) == s@);
    while n > 0 && chars[n - 1] == c
        invariant
            chars@ == s@,
            n <= chars@.len(),
            trimmed_end_of(s@.take(n as int), c) == trimmed_end_of(s@, c),
        decreases n,
    {
        assert(s@.take(n as int).drop_last() == s@.take(n - 1));
        n = n - 1;
    }
    assert(s@.take(n as int) == s@.subrange(0, n as int));
    s.substring_char(0, n)
}

/// Trimming the start leaves a text that starts with no white space.
pub proof fn trimmed_start_is_tight(s: Seq<char>)
    ensures
        trimmed_start(s).len() <= s.len(),
        trimmed_start(s).len() > 0 ==> !is_white_char(trimmed_start(s)[0]),
        trimmed_start(s) == s.skip(s.len() - trimmed_start(s).len()),
        forall|i: int| 0 <= i < s.len() - trimmed_start(s).len() ==> is_white_char(#[trigger] s[i]),
    decreases s.len(),
{
    if s.len() > 0 && is_white_char(s[0]) {
        trimmed_start_is_tight(s.drop_first());
        let k = s.len() - trimmed_start(s).len();
        assert(s.drop_first().skip(k - 1) == s.skip(k));
        assert forall|i: int| 0 <= i < k implies is_white_char(#[trigger] s[i]) by {
            if i > 0 {
                assert(s.drop_first()[i - 1] == s[i]);
            }
        }
    } else {
        assert(s.skip(0) == s);
    }
}

/// Trimming the end leaves a text that ends with no white space.
pub proof fn trimmed_end_is_tight(s: Seq<char>)
    ensures
        trimmed_end(s).len() <= s.len(),
        trimmed_end(s).len() > 0 ==> !is_white_char(trimmed_end(s).last()),
        trimmed_end(s) == s.take(trimmed_end(s).len() as int),
        forall|i: int| trimmed_end(s).len() <= i < s.len() ==> is_white_char(#[trigger] s[i]),
    decreases s.len(),
{
    if s.len() > 0 && is_white_char(s.last()) {
        trimmed_end_is_tight(s.drop_last());
        let k = trimmed_end(s).len() as int;
        assert(s.drop_last().take(k) == s.take(k));
        assert forall|i: int| k <= i < s.len() implies is_white_char(#[trigger] s[i]) by {
            if i < s.len() - 1 {
                assert(s.drop_last()[i] == s[i]);
            }
        }
    } else {
        assert(s.take(s.len() as int) == s);
    }
}

/// What has been trimmed has nothing left to trim.
pub proof fn trimmed_is_idempotent(s: Seq<char>)
    ensures
        trimmed(trimmed(s)) == trimmed(s),
{
    trimmed_start_is_tight(s);
    let t = trimmed_start(s);
    trimmed_end_is_tight(t);
    let u = trimmed_end(t);
    if u.len() > 0 {
        assert(u[0] == t[0]);
    }
    assert(trimmed_start(u) == u);
    assert(trimmed_end(u) == u);
}

// ---------------------------------------------------------------------------------------------
// Splitting and joining
// ---------------------------------------------------------------------------------------------

/// The pieces of `s` between the separators; one empty piece for the empty text.
pub open spec fn pieces(s: Seq<char>, sep: char) -> Seq<Seq<char>>
    decreases s.len(),
{
    if s.len() == 0 {
        seq![s]
    } else {
        let before = pieces(s.drop_last(), sep);
        if s.last() == sep {
            before.push(Seq::empty())
        } else {
            before.drop_last().push(before.last().push(s.last()))
        }
    }
}

/// The runs of characters of `s` that hold no white space.
pub open spec fn words(s: Seq<char>) -> Seq<Seq<char>>
    decreases s.len(),
{
    if s.len() == 0 {
        Seq::empty()
    } else {
        let head = s.drop_last();
        let before = words(head);
        if is_white_char(s.last()) {
            before
        } else if head.len() == 0 || is_white_char(head.last()) {
            before.push(seq![s.last()])
        } else {
            before.drop_last().push(before.last().push(s.last()))
        }
    }
}

/// The views of a vector of texts.
pub open spec fn views(v: Seq<String>) -> Seq<Seq<char>> {
    Seq::new(v.len(), |i: int| v[i]@)
}

/// The texts in order, with `sep` between each two.
pub open spec fn joined(parts: Seq<Seq<char>>, sep: Seq<char>) -> Seq<char>
    decreases parts.len(),
{
    if parts.len() == 0 {
        Seq::empty()
    } else if parts.len() == 1 {
        parts[0]
    } else {
        joined(parts.drop_last(), sep) + sep + parts.last()
    }
}

/// A text always has at least one piece.
pub proof fn pieces_is_not_empty(s: Seq<char>, sep: char)
    ensures
        pieces(s, sep).len() > 0,
    decreases s.len(),
{
    if s.len() > 0 {
        pieces_is_not_empty(s.drop_last(), sep);
    }
}

/// The pieces of a text in two parts: the last piece of the first part and the first piece of the
/// second part are one.
pub proof fn pieces_of_parts(a: Seq<char>, b: Seq<char>, sep: char)
    ensures
        pieces(a + b, sep) == pieces(a, sep).drop_last() + seq![
            pieces(a, sep).last() + pieces(b, sep)[0],
        ] + pieces(b, sep).skip(1),
    decreases b.len(),
{
    let first = pieces(a, sep);
    pieces_is_not_empty(a, sep);
    if b.len() == 0 {
        assert(a + b =~= a);
        assert(first.last() + b =~= first.last());
        assert(pieces(b, sep).skip(1) =~= Seq::empty());
        assert(first.drop_last() + seq![first.last()] + Seq::<Seq<char>>::empty() =~= first);
    } else {
        let head = b.drop_last();
        let before = pieces(head, sep);
        pieces_is_not_empty(head, sep);
        pieces_of_parts(a, head, sep);
        assert((a + b).drop_last() =~= a + head);
        let all = pieces(a + head, sep);
        if b.last() == sep {
            assert(pieces(b, sep).skip(1) =~= before.skip(1).push(Seq::empty()));
        } else if before.len() == 1 {
            let last = first.last() + before[0];
            assert(all.last() == last);
            assert(last.push(b.last()) =~= first.last() + before[0].push(b.last()));
            assert(pieces(b, sep).skip(1) =~= Seq::empty());
        } else {
            assert(all.last() == before.last());
            assert(pieces(b, sep).skip(1) =~= before.skip(1).drop_last().push(
                before.last().push(b.last()),
            ));
        }
        assert(pieces(a + b, sep) =~= first.drop_last() + seq![
            first.last() + pieces(b, sep)[0],
        ] + pieces(b, sep).skip(1));
    }
}

/// A text without a separator is its only piece.
pub proof fn pieces_without_separator(s: Seq<char>, sep: char)
    requires
        !s.contains(sep),
    ensures
        pieces(s, sep) == seq![s],
    decreases s.len(),
{
    if s.len() > 0 {
        assert(s[s.len() - 1] != sep);
        assert forall|i: int| 0 <= i < s.drop_last().len() implies s.drop_last()[i] != sep by {
            assert(s[i] != sep);
        }
        pieces_without_separator(s.drop_last(), sep);
        assert(s.drop_last().push(s.last()) =~= s);
        assert(pieces(s, sep) =~= seq![s]);
    }
}

/// The pieces of the text, joined by the separator again, are the text.
pub proof fn joined_pieces(s: Seq<char>, sep: char)
    ensures
        joined(pieces(s, sep), seq![sep]) == s,
    decreases s.len(),
{
    if s.len() > 0 {
        let before = pieces(s.drop_last(), sep);
        joined_pieces(s.drop_last(), sep);
        pieces_is_not_empty(s.drop_last(), sep);
        let all = pieces(s, sep);
        assert(all.drop_last() == if s.last() == sep { before } else { before.drop_last() });
        if s.last() == sep {
            assert(joined(all, seq![sep]) == s.drop_last() + seq![sep] + Seq::<char>::empty());
        }
        if s.last() != sep {
            assert(all.last() == before.last().push(s.last()));
            if before.len() > 1 {
                let front = joined(before.drop_last(), seq![sep]) + seq![sep];
                assert(front + before.last().push(s.last()) == (front + before.last()).push(
                    s.last(),
                ));
            }
        }
        assert(joined(all, seq![sep]) == s.drop_last().push(s.last()));
        assert(s.drop_last().push(s.last()) == s);
    }
}

/// The pieces of the text between the separators.
pub fn split(s: &str, sep: char) -> (r: Vec<String>)
    ensures
        views(r@) == pieces(s@, sep),
{
    let chars = chars_of(s);
    let mut done: Vec<String> = Vec::new();
    let mut current = String::new();
    let mut i: usize = 0;
    proof {
        assert(s@.take(0) == Seq::<char>::empty());
        assert(views(done@).push(current@) == pieces(s@.take(0), sep));
    }
    while i < chars.len()
        invariant
            chars@ == s@,
            i <= chars@.len(),
            views(done@).push(current@) == pieces(s@.take(i as int), sep),
        decreases chars@.len() - i,
    {
        let c = chars[i];
        proof {
            assert(s@.take(i + 1).drop_last() == s@.take(i as int));
            pieces_is_not_empty(s@.take(i as int), sep);
        }
        let ghost before = views(done@).push(current@);
        if c == sep {
            done.push(current);
            current = String::new();
            assert(views(done@) == before);
        } else {
            current.push(c);
            assert(views(done@) == before.drop_last());
        }
        assert(views(done@).push(current@) == pieces(s@.take(i + 1), sep));
        i = i + 1;
    }
    assert(s@.take(i as int) == s@);
    let ghost before = views(done@).push(current@);
    done.push(current);
    assert(views(done@) == before);
    done
}

/// The runs of characters of the text that hold no white space.
pub fn split_white(s: &str) -> (r: Vec<String>)
    ensures
        views(r@) == words(s@),
{
    let chars = chars_of(s);
    let mut done: Vec<String> = Vec::new();
    let mut current = String::new();
    let mut i: usize = 0;
    proof {
        assert(s@.take(0) == Seq::<char>::empty());
        assert(views(done@) == words(s@.take(0)));
    }
    while i < chars.len()
        invariant
            chars@ == s@,
            i <= chars@.len(),
            current@.len() == 0 <==> (i == 0 || is_white_char(s@[i - 1])),
            words(s@.take(i as int)) == if current@.len() == 0 {
                views(done@)
            } else {
                views(done@).push(current@)
            },
        decreases chars@.len() - i,
    {
        let c = chars[i];
        proof {
            assert(s@.take(i + 1).drop_last() == s@.take(i as int));
        }
        let ghost before = views(done@);
        let ghost held = current@;
        if is_white(c) {
            if !current.as_str().is_empty() {
                done.push(current);
                current = String::new();
                assert(views(done@) == before.push(held));
            }
        } else {
            current.push(c);
            assert(held.len() == 0 ==> current@ == seq![c]);
            assert(before.push(held).drop_last() == before);
            assert(before.push(held).last() == held);
        }
        i = i + 1;
    }
    assert(s@.take(i as int) == s@);
    if !current.as_str().is_empty() {
        let ghost before = views(done@);
        let ghost held = current@;
        done.push(current);
        assert(views(done@) == before.push(held));
    }
    done
}

/// The texts in order, with `sep` between each two.
pub fn join(parts: &Vec<String>, sep: &str) -> (r: String)
    ensures
        r@ == joined(views(parts@), sep@),
{
    let mut out = String::new();
    let mut i: usize = 0;
    assert(views(parts@).take(0) == Seq::<Seq<char>>::empty());
    while i < parts.len()
        invariant
            i <= parts@.len(),
            out@ == joined(views(parts@).take(i as int), sep@),
        decreases parts@.len() - i,
    {
        proof {
            let next = views(parts@).take(i + 1);
            assert(next.drop_last() == views(parts@).take(i as int));
            assert(next.last() == parts@[i as int]@);
            assert(i == 0 ==> Seq::<char>::empty() + next[0] == next[0]);
        }
        if i > 0 {
            out.append(sep);
        }
        out.append(parts[i].as_str());
        i = i + 1;
    }
    assert(views(parts@).take(i as int) == views(parts@));
    out
}

/// The path of the name `name` under the directory `base`.
pub open spec fn joined_path(base: Seq<char>, name: Seq<char>) -> Seq<char> {
    if base.len() == 0 || base.last() == '/' {
        base + name
    } else {
        base + "/"@ + name
    }
}

/// The path of the relative name `name` under the directory `base`.
pub fn join_path(base: &str, name: &str) -> (r: String)
    ensures
        r@ == joined_path(base@, name@),
{
    let chars = chars_of(base);
    let mut path = base.to_string();
    if chars.len() > 0 && chars[chars.len() - 1] != '/' {
        path.append("/");
    }
    path.append(name);
    path
}

/// The characters of an optional text.
pub open spec fn str_view(s: Option<&str>) -> Option<Seq<char>> {
    match s {
        Some(s) => Some(s@),
        None => None,
    }
}

/// A text of white space alone counts as no text.
pub open spec fn given(s: Option<&str>) -> Option<Seq<char>> {
    match s {
        Some(s) => if trimmed(s@).len() == 0 {
            None
        } else {
            Some(trimmed(s@))
        },
        None => None,
    }
}

/// The trimmed text, where there is one that is not empty.
pub fn given_text<'a>(s: Option<&'a str>) -> (r: Option<&'a str>)
    ensures
        match r {
            Some(t) => given(s) == Some(t@),
            None => given(s) is None,
        },
{
    match s {
        Some(s) => {
            let t = trim(s);
            if t.is_empty() {
                None
            } else {
                Some(t)
            }
        },
        None => None,
    }
}

// ---------------------------------------------------------------------------------------------
// Searching
// ---------------------------------------------------------------------------------------------

/// Whether `part` stands in `s` at position `i`.
pub open spec fn stands_at(s: Seq<char>, part: Seq<char>, i: int) -> bool {
    0 <= i && i + part.len() <= s.len() && s.subrange(i, i + part.len()) == part
}

/// Whether `s` begins with `part`.
pub open spec fn begins_with(s: Seq<char>, part: Seq<char>) -> bool {
    stands_at(s, part, 0)
}

/// Whether `s` finishes with `part`.
pub open spec fn finishes_with(s: Seq<char>, part: Seq<char>) -> bool {
    stands_at(s, part, s.len() - part.len())
}

/// Whether `part` stands anywhere in `s`.
pub open spec fn holds_text(s: Seq<char>, part: Seq<char>) -> bool {
    exists|i: int| #[trigger] stands_at(s, part, i)
}

fn matches_at(s: &Vec<char>, part: &Vec<char>, at: usize) -> (r: bool)
    requires
        at + part@.len() <= s@.len(),
    ensures
        r == stands_at(s@, part@, at as int),
{
    let total: usize = s.len();
    let mut j: usize = 0;
    while j < part.len()
        invariant
            total == s@.len(),
            at + part@.len() <= s@.len(),
            j <= part@.len(),
            forall|k: int| 0 <= k < j ==> s@[at + k] == part@[k],
        decreases part@.len() - j,
    {
        if s[at + j] != part[j] {
            assert(s@.subrange(at as int, at + part@.len())[j as int] == s@[at + j]);
            return false;
        }
        j = j + 1;
    }
    assert(s@.subrange(at as int, at + part@.len()) =~= part@);
    true
}

/// Whether the text begins with `part`.
pub fn starts_with(s: &str, part: &str) -> (r: bool)
    ensures
        r == begins_with(s@, part@),
{
    let all = chars_of(s);
    let wanted = chars_of(part);
    wanted.len() <= all.len() && matches_at(&all, &wanted, 0)
}

/// Whether the text finishes with `part`.
pub fn ends_with(s: &str, part: &str) -> (r: bool)
    ensures
        r == finishes_with(s@, part@),
{
    let all = chars_of(s);
    let wanted = chars_of(part);
    wanted.len() <= all.len() && matches_at(&all, &wanted, all.len() - wanted.len())
}

/// Whether `part` stands anywhere in the text.
pub fn contains(s: &str, part: &str) -> (r: bool)
    ensures
        r == holds_text(s@, part@),
{
    let all = chars_of(s);
    let wanted = chars_of(part);
    if wanted.len() > all.len() {
        return false;
    }
    let last: usize = all.len() - wanted.len();
    let mut i: usize = 0;
    while i <= last
        invariant
            all@ == s@,
            wanted@ == part@,
            wanted@.len() <= all@.len(),
            last == all@.len() - wanted@.len(),
            i <= last + 1,
            forall|k: int| 0 <= k < i ==> !#[trigger] stands_at(s@, part@, k),
        decreases last + 1 - i,
    {
        if matches_at(&all, &wanted, i) {
            return true;
        }
        if i == last {
            return false;
        }
        i = i + 1;
    }
    false
}

/// Whether the text holds the character `c`.
pub fn contains_char(s: &str, c: char) -> (r: bool)
    ensures
        r == s@.contains(c),
{
    let all = chars_of(s);
    let mut i: usize = 0;
    while i < all.len()
        invariant
            all@ == s@,
            i <= all@.len(),
            forall|k: int| 0 <= k < i ==> s@[k] != c,
        decreases all@.len() - i,
    {
        if all[i] == c {
            assert(s@[i as int] == c);
            return true;
        }
        i = i + 1;
    }
    false
}

// ---------------------------------------------------------------------------------------------
// Decimal numbers
// ---------------------------------------------------------------------------------------------

/// The character of one decimal digit.
pub open spec fn digit_char(d: nat) -> char {
    if d == 0 {
        '0'
    } else if d == 1 {
        '1'
    } else if d == 2 {
        '2'
    } else if d == 3 {
        '3'
    } else if d == 4 {
        '4'
    } else if d == 5 {
        '5'
    } else if d == 6 {
        '6'
    } else if d == 7 {
        '7'
    } else if d == 8 {
        '8'
    } else {
        '9'
    }
}

/// The value of a decimal digit.
pub open spec fn digit_value(c: char) -> int {
    c as int - '0' as int
}

/// Whether `c` is a decimal digit.
pub open spec fn is_digit(c: char) -> bool {
    '0' <= c <= '9'
}

/// The decimal notation of `n`.
pub open spec fn decimal(n: nat) -> Seq<char>
    decreases n,
{
    if n < 10 {
        seq![digit_char(n)]
    } else {
        decimal(n / 10).push(digit_char(n % 10))
    }
}

/// The number that a sequence of digits writes.
pub open spec fn digits_value(s: Seq<char>) -> int
    decreases s.len(),
{
    if s.len() == 0 {
        0
    } else {
        digits_value(s.drop_last()) * 10 + digit_value(s.last())
    }
}

/// Whether every character is a decimal digit.
pub open spec fn all_digits(s: Seq<char>) -> bool {
    forall|i: int| 0 <= i < s.len() ==> is_digit(#[trigger] s[i])
}

/// The digits of an unsigned number: what follows an optional plus sign.
pub open spec fn unsigned_digits(s: Seq<char>) -> Seq<char> {
    if s.len() > 0 && s[0] == '+' {
        s.drop_first()
    } else {
        s
    }
}

/// The unsigned number that `s` writes, where it writes one of at most `max`.
pub open spec fn parsed_unsigned(s: Seq<char>, max: int) -> Option<int> {
    let d = unsigned_digits(s);
    if d.len() > 0 && all_digits(d) && digits_value(d) <= max {
        Some(digits_value(d))
    } else {
        None
    }
}

fn digit(d: u64) -> (c: char)
    requires
        d < 10,
    ensures
        c == digit_char(d as nat),
{
    if d == 0 {
        '0'
    } else if d == 1 {
        '1'
    } else if d == 2 {
        '2'
    } else if d == 3 {
        '3'
    } else if d == 4 {
        '4'
    } else if d == 5 {
        '5'
    } else if d == 6 {
        '6'
    } else if d == 7 {
        '7'
    } else if d == 8 {
        '8'
    } else {
        '9'
    }
}

/// The decimal notation of `n`.
pub fn decimal_text(n: u64) -> (s: String)
    ensures
        s@ == decimal(n as nat),
    decreases n,
{
    if n < 10 {
        let mut s = String::new();
        s.push(digit(n));
        assert(s@ == decimal(n as nat));
        s
    } else {
        let mut s = decimal_text(n / 10);
        s.push(digit(n % 10));
        s
    }
}

/// The values of digits are not negative and grow with each digit.
pub proof fn digits_value_grows(s: Seq<char>, n: int)
    requires
        all_digits(s),
        0 <= n <= s.len(),
    ensures
        0 <= digits_value(s.take(n)) <= digits_value(s),
    decreases s.len(),
{
    if s.len() > 0 {
        if n == s.len() {
            assert(s.take(n) == s);
            digits_value_grows(s.drop_last(), 0);
            assert(s.drop_last().take(0) == Seq::<char>::empty());
            assert(is_digit(s.last()));
        } else {
            digits_value_grows(s.drop_last(), n);
            assert(s.drop_last().take(n) == s.take(n));
            assert(is_digit(s.last()));
        }
    } else {
        assert(s.take(n) == s);
    }
}

/// How many digits stand at the start.
pub open spec fn leading_digits(s: Seq<char>) -> int
    decreases s.len(),
{
    if s.len() > 0 && is_digit(s[0]) {
        1 + leading_digits(s.drop_first())
    } else {
        0
    }
}

/// What is wrong with a text that writes no unsigned number of at most `max`.
pub open spec fn number_problem(s: Seq<char>, max: int) -> Seq<char> {
    let d = unsigned_digits(s);
    if s.len() == 0 {
        "cannot parse integer from empty string"@
    } else if digits_value(d.take(leading_digits(d))) > max {
        "number too large to fit in target type"@
    } else {
        "invalid digit found in string"@
    }
}

/// The digits at the start are digits, and no digit follows them.
proof fn leading_digits_are_digits(s: Seq<char>)
    ensures
        0 <= leading_digits(s) <= s.len(),
        all_digits(s.take(leading_digits(s))),
        leading_digits(s) < s.len() ==> !is_digit(s[leading_digits(s)]),
    decreases s.len(),
{
    if s.len() > 0 && is_digit(s[0]) {
        leading_digits_are_digits(s.drop_first());
        let n = leading_digits(s);
        let run = s.take(n);
        let rest = s.drop_first();
        assert forall|i: int| 0 <= i < run.len() implies is_digit(#[trigger] run[i]) by {
            if i > 0 {
                assert(rest.take(n - 1)[i - 1] == run[i]);
            }
        }
        if n < s.len() {
            assert(rest[n - 1] == s[n]);
        }
    }
}

/// The unsigned number that the text writes, where it writes one of at most `max`; else what is
/// wrong with it.
pub fn parse_unsigned(s: &str, max: u64) -> (r: Result<u64, String>)
    ensures
        match r {
            Ok(n) => parsed_unsigned(s@, max as int) == Some(n as int),
            Err(problem) => parsed_unsigned(s@, max as int) is None && problem@ == number_problem(
                s@,
                max as int,
            ),
        },
{
    let all = chars_of(s);
    let mut i: usize = 0;
    if all.len() > 0 && all[0] == '+' {
        i = 1;
    }
    let ghost d = unsigned_digits(s@);
    let start: usize = i;
    proof {
        assert(d == s@.skip(start as int));
        assert(d.take(0) == Seq::<char>::empty());
        leading_digits_are_digits(d);
    }
    if start == all.len() {
        if start == 0 {
            return Err("cannot parse integer from empty string".to_string());
        }
        return Err("invalid digit found in string".to_string());
    }
    let mut value: u64 = 0;
    while i < all.len()
        invariant
            all@ == s@,
            start <= i <= all@.len(),
            start <= 1,
            d == s@.skip(start as int),
            d == unsigned_digits(s@),
            d.len() > 0,
            forall|k: int| 0 <= k < i - start ==> is_digit(#[trigger] d[k]),
            value == digits_value(d.take(i - start)),
            value <= max,
        decreases all@.len() - i,
    {
        let c = all[i];
        let ghost k = i - start;
        assert(d[k] == c);
        proof {
            leading_digits_are_digits(d);
            let n = leading_digits(d);
            if n < k {
                assert(is_digit(d[n]));
            }
        }
        if c < '0' || '9' < c {
            proof {
                let n = leading_digits(d);
                if n > k {
                    assert(d.take(n)[k] == c);
                }
            }
            return Err("invalid digit found in string".to_string());
        }
        let add: u64 = (c as u32 - '0' as u32) as u64;
        assert(d.take(k + 1).drop_last() == d.take(k));
        assert(digits_value(d.take(k + 1)) == value * 10 + add);
        if add > max || value > (max - add) / 10 {
            proof {
                assert(digits_value(d.take(k + 1)) > max);
                let n = leading_digits(d);
                if n == k {
                    assert(!is_digit(d[n]));
                }
                digits_value_grows(d.take(n), k + 1);
                assert(d.take(n).take(k + 1) =~= d.take(k + 1));
                if all_digits(d) {
                    digits_value_grows(d, k + 1);
                }
            }
            return Err("number too large to fit in target type".to_string());
        }
        value = value * 10 + add;
        i = i + 1;
    }
    proof {
        assert(d.take(i - start) == d);
    }
    Ok(value)
}

// ---------------------------------------------------------------------------------------------
// Laws of trimming, splitting and numbers
// ---------------------------------------------------------------------------------------------

/// Whether `t` is what is left of `s` without the white space around it: it stands in `s` with every
/// character, all that stands outside it is white, and it neither begins nor ends with white space.
pub open spec fn is_ink_of(t: Seq<char>, s: Seq<char>) -> bool {
    &&& t.len() > 0 ==> !is_white_char(t[0]) && !is_white_char(t.last())
    &&& exists|i: int|
        {
            &&& #[trigger] stands_at(s, t, i)
            &&& forall|j: int| 0 <= j < i ==> is_white_char(#[trigger] s[j])
            &&& forall|j: int| i + t.len() <= j < s.len() ==> is_white_char(#[trigger] s[j])
        }
}

/// Trimming takes white space from the two ends, all of it, and nothing else.
pub proof fn trimming_keeps_the_ink(s: Seq<char>)
    ensures
        is_ink_of(trimmed(s), s),
{
    let u = trimmed_start(s);
    let t = trimmed(s);
    let cut = s.len() - u.len();
    trimmed_start_is_tight(s);
    trimmed_end_is_tight(u);
    if t.len() > 0 {
        assert(t[0] == u[0]);
    }
    assert(s.subrange(cut, cut + t.len()) =~= t);
    assert(stands_at(s, t, cut));
    assert forall|j: int| cut + t.len() <= j < s.len() implies is_white_char(#[trigger] s[j]) by {
        assert(u[j - cut] == s[j]);
    }
}

/// Only one text is what is left of another without the white space around it.
pub proof fn ink_is_unique(t: Seq<char>, s: Seq<char>)
    requires
        is_ink_of(t, s),
    ensures
        t == trimmed(s),
{
    trimming_keeps_the_ink(s);
    let u = trimmed(s);
    let i = choose|i: int|
        {
            &&& #[trigger] stands_at(s, t, i)
            &&& forall|j: int| 0 <= j < i ==> is_white_char(#[trigger] s[j])
            &&& forall|j: int| i + t.len() <= j < s.len() ==> is_white_char(#[trigger] s[j])
        };
    let k = choose|k: int|
        {
            &&& #[trigger] stands_at(s, u, k)
            &&& forall|j: int| 0 <= j < k ==> is_white_char(#[trigger] s[j])
            &&& forall|j: int| k + u.len() <= j < s.len() ==> is_white_char(#[trigger] s[j])
        };
    if t.len() > 0 {
        assert(s.subrange(i, i + t.len())[0] == s[i]);
        assert(s.subrange(i, i + t.len())[t.len() - 1] == s[i + t.len() - 1]);
    }
    if u.len() > 0 {
        assert(s.subrange(k, k + u.len())[0] == s[k]);
        assert(s.subrange(k, k + u.len())[u.len() - 1] == s[k + u.len() - 1]);
    }
    if t.len() > 0 && u.len() > 0 {
        assert(i == k);
        assert(i + t.len() == k + u.len());
    } else if t.len() > 0 {
        assert(is_white_char(s[i]));
    } else if u.len() > 0 {
        assert(is_white_char(s[k]));
    } else {
        assert(t =~= u);
    }
}

/// `trim` gives what is left of the text without the white space around it.
pub proof fn trim_keeps_the_ink(s: &str, r: &str)
    requires
        call_ensures(trim, (s,), r),
    ensures
        is_ink_of(r@, s@),
{
    trimming_keeps_the_ink(s@);
}

/// No piece of a text holds the separator.
pub proof fn pieces_hold_no_separator(s: Seq<char>, sep: char, i: int)
    requires
        0 <= i < pieces(s, sep).len(),
    ensures
        !pieces(s, sep)[i].contains(sep),
    decreases s.len(),
{
    if s.len() == 0 {
        assert(pieces(s, sep)[0] =~= Seq::empty());
    } else {
        let before = pieces(s.drop_last(), sep);
        pieces_is_not_empty(s.drop_last(), sep);
        let all = pieces(s, sep);
        if i < all.len() - 1 {
            pieces_hold_no_separator(s.drop_last(), sep, i);
            assert(all[i] == before[i]);
        } else if s.last() == sep {
            assert(all[i] =~= Seq::empty());
        } else {
            pieces_hold_no_separator(s.drop_last(), sep, before.len() - 1);
            let last = before.last();
            assert(all[i] == last.push(s.last()));
            assert forall|n: int| 0 <= n < all[i].len() implies all[i][n] != sep by {
                if n < last.len() {
                    assert(last[n] != sep);
                }
            }
        }
    }
}

/// Whether no character in the text is white space.
pub open spec fn without_white(s: Seq<char>) -> bool {
    forall|i: int| 0 <= i < s.len() ==> !is_white_char(#[trigger] s[i])
}

/// A text without white space is one word, and what follows white space is another: the words of two
/// texts with white space between them are those of the one and those of the other.
pub proof fn words_of_parts(a: Seq<char>, white: char, b: Seq<char>)
    requires
        is_white_char(white),
    ensures
        words(a.push(white) + b) == words(a) + words(b),
        without_white(b) && b.len() > 0 ==> words(b) == seq![b],
    decreases b.len(),
{
    if b.len() == 0 {
        assert(a.push(white) + b =~= a.push(white));
        assert(a.push(white).drop_last() =~= a);
        assert(words(a) + words(b) =~= words(a));
    } else {
        let head = b.drop_last();
        words_of_parts(a, white, head);
        let all = a.push(white) + b;
        assert(all.drop_last() =~= a.push(white) + head);
        let before = words(all.drop_last());
        if is_white_char(b.last()) {
        } else if head.len() == 0 || is_white_char(head.last()) {
            assert(is_white_char(all.drop_last().last()));
            assert(words(all) =~= words(a) + words(b));
        } else {
            words_end_with_a_word(head);
            assert(all.drop_last().last() == head.last());
            assert(before.last() == words(head).last());
            assert(words(all) =~= words(a) + words(b));
        }
        if without_white(b) {
            assert(!is_white_char(b[b.len() - 1]));
            assert forall|i: int| 0 <= i < head.len() implies !is_white_char(
                #[trigger] head[i],
            ) by {
                assert(!is_white_char(b[i]));
            }
            if head.len() > 0 {
                assert(!is_white_char(head[head.len() - 1]));
                assert(words(head).drop_last() =~= Seq::empty());
                assert(head.push(b.last()) =~= b);
                assert(words(b) =~= seq![b]);
            } else {
                assert(words(head) =~= Seq::empty());
                assert(seq![b.last()] =~= b);
                assert(words(b) =~= seq![b]);
            }
        }
    }
}

proof fn words_end_with_a_word(s: Seq<char>)
    requires
        s.len() > 0,
        !is_white_char(s.last()),
    ensures
        words(s).len() > 0,
    decreases s.len(),
{
    let head = s.drop_last();
    if head.len() > 0 && !is_white_char(head.last()) {
        words_end_with_a_word(head);
    }
}

/// The notation of a number is made of digits, is read as the number, and has no leading zero.
pub proof fn decimal_is_read_back(n: nat)
    ensures
        decimal(n).len() > 0,
        all_digits(decimal(n)),
        digits_value(decimal(n)) == n,
        n > 0 ==> decimal(n)[0] != '0',
    decreases n,
{
    if n < 10 {
        let s = decimal(n);
        assert(s.drop_last() =~= Seq::empty());
        assert(digits_value(s.drop_last()) == 0);
    } else {
        decimal_is_read_back(n / 10);
        let front = decimal(n / 10);
        let s = decimal(n);
        assert(s.drop_last() =~= front);
        assert forall|i: int| 0 <= i < s.len() implies is_digit(#[trigger] s[i]) by {
            if i < front.len() {
                assert(s[i] == front[i]);
            }
        }
        assert(s[0] == front[0]);
    }
}

/// Every part stands in the joined text.
pub proof fn joined_holds_each(parts: Seq<Seq<char>>, sep: Seq<char>, i: int)
    requires
        0 <= i < parts.len(),
    ensures
        holds_text(joined(parts, sep), parts[i]),
    decreases parts.len(),
{
    let all = joined(parts, sep);
    let part = parts[i];
    if parts.len() == 1 {
        assert(all.subrange(0, part.len() as int) =~= part);
        assert(stands_at(all, part, 0));
    } else if i == parts.len() - 1 {
        let at = all.len() - part.len();
        assert(all.subrange(at, at + part.len()) =~= part);
        assert(stands_at(all, part, at));
    } else {
        let front = joined(parts.drop_last(), sep);
        assert(parts.drop_last()[i] == part);
        joined_holds_each(parts.drop_last(), sep, i);
        let at = choose|at: int| stands_at(front, part, at);
        assert(all.subrange(at, at + part.len()) =~= front.subrange(at, at + part.len()));
        assert(stands_at(all, part, at));
    }
}

/// A run of one character at the end is taken off whole, and nothing before it.
pub proof fn run_at_the_end_is_taken_off(core: Seq<char>, run: Seq<char>, c: char)
    requires
        core.len() > 0 ==> core.last() != c,
        forall|i: int| 0 <= i < run.len() ==> #[trigger] run[i] == c,
    ensures
        trimmed_end_of(core + run, c) == core,
    decreases run.len(),
{
    let all = core + run;
    if run.len() == 0 {
        assert(all =~= core);
    } else {
        assert(all.last() == run[run.len() - 1]);
        assert(all.drop_last() =~= core + run.drop_last());
        run_at_the_end_is_taken_off(core, run.drop_last(), c);
    }
}

/// The notation of a number is parsed as the number, where it is not above the limit.
pub proof fn number_is_parsed(n: nat, max: int)
    requires
        n <= max,
    ensures
        parsed_unsigned(decimal(n), max) == Some(n as int),
{
    decimal_is_read_back(n);
    assert(is_digit(decimal(n)[0]));
    assert(decimal(n)[0] != '+');
}

/// A text that neither begins nor ends with white space is what is left of itself.
pub proof fn tight_text_stays(s: Seq<char>)
    requires
        s.len() > 0 ==> !is_white_char(s[0]) && !is_white_char(s.last()),
    ensures
        is_ink_of(s, s),
        trimmed(s) == s,
{
    assert(s.subrange(0, s.len() as int) =~= s);
    assert(stands_at(s, s, 0));
    assert(is_ink_of(s, s));
    ink_is_unique(s, s);
}

} // verus!
