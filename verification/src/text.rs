//! Operations on text, each stated on the sequence of characters it works on.

use vstd::prelude::*;
use vstd::string::*;

verus! {

/// Whether `part` stands in `text` from position `at` on.
pub open spec fn occurs_at(text: Seq<char>, part: Seq<char>, at: int) -> bool {
    &&& 0 <= at
    &&& at + part.len() <= text.len()
    &&& text.subrange(at, at + part.len()) == part
}

/// Whether `part` stands somewhere in `text`.
pub open spec fn occurs_in(text: Seq<char>, part: Seq<char>) -> bool {
    exists|at: int| occurs_at(text, part, at)
}

/// The text in which every match of `from`, taken from left to right without overlap, gives way
/// to `to`. An empty `from` matches before every character and at the end.
pub open spec fn replaced(text: Seq<char>, from: Seq<char>, to: Seq<char>) -> Seq<char>
    decreases text.len(),
{
    if from.len() == 0 {
        if text.len() == 0 {
            to
        } else {
            to.push(text[0]) + replaced(text.drop_first(), from, to)
        }
    } else if occurs_at(text, from, 0) {
        to + replaced(text.skip(from.len() as int), from, to)
    } else if text.len() == 0 {
        text
    } else {
        seq![text[0]] + replaced(text.drop_first(), from, to)
    }
}

/// The length of the longest prefix of `text` that is free of `mark`.
pub open spec fn first_of(text: Seq<char>, mark: char) -> nat
    decreases text.len(),
{
    if text.len() == 0 || text[0] == mark {
        0
    } else {
        1 + first_of(text.drop_first(), mark)
    }
}

/// The part of `text` in front of the first `mark`, or all of it.
pub open spec fn head(text: Seq<char>, mark: char) -> Seq<char> {
    text.take(first_of(text, mark) as int)
}

/// The parts of `text` between the occurrences of `mark`.
pub open spec fn split(text: Seq<char>, mark: char) -> Seq<Seq<char>>
    decreases text.len(),
{
    let at = first_of(text, mark);
    if at >= text.len() {
        seq![text]
    } else {
        seq![text.take(at as int)] + split(text.skip(at as int + 1), mark)
    }
}

/// What follows the first match of `part` in `text`.
pub open spec fn after_first(text: Seq<char>, part: Seq<char>) -> Option<Seq<char>>
    decreases text.len(),
{
    if occurs_at(text, part, 0) {
        Some(text.skip(part.len() as int))
    } else if text.len() == 0 {
        None
    } else {
        after_first(text.drop_first(), part)
    }
}

/// The characters with the Unicode property `White_Space`.
pub open spec fn white_space(c: char) -> bool {
    ||| '\u{9}' <= c <= '\u{d}'
    ||| c == ' '
    ||| c == '\u{85}'
    ||| c == '\u{a0}'
    ||| c == '\u{1680}'
    ||| '\u{2000}' <= c <= '\u{200a}'
    ||| c == '\u{2028}'
    ||| c == '\u{2029}'
    ||| c == '\u{202f}'
    ||| c == '\u{205f}'
    ||| c == '\u{3000}'
}

/// `text` without the white space in front.
pub open spec fn trimmed_start(text: Seq<char>) -> Seq<char>
    decreases text.len(),
{
    if text.len() > 0 && white_space(text[0]) {
        trimmed_start(text.drop_first())
    } else {
        text
    }
}

/// `text` without the white space at the end.
pub open spec fn trimmed_end(text: Seq<char>) -> Seq<char>
    decreases text.len(),
{
    if text.len() > 0 && white_space(text.last()) {
        trimmed_end(text.drop_last())
    } else {
        text
    }
}

/// `text` without the white space at both ends.
pub open spec fn trimmed(text: Seq<char>) -> Seq<char> {
    trimmed_end(trimmed_start(text))
}

/// The digit that stands for `d`, which is below ten.
pub open spec fn digit(d: nat) -> char {
    (d + 48) as char
}

/// The decimal numeral of `n`.
pub open spec fn decimal(n: nat) -> Seq<char>
    decreases n,
{
    if n < 10 {
        seq![digit(n)]
    } else {
        decimal(n / 10).push(digit(n % 10))
    }
}

/// Whether `a` comes before `b` in the order of strings: by the first character in which they
/// differ, a proper prefix first.
pub open spec fn precedes(a: Seq<char>, b: Seq<char>) -> bool
    decreases a.len(),
{
    if b.len() == 0 {
        false
    } else if a.len() == 0 {
        true
    } else if a[0] != b[0] {
        a[0] < b[0]
    } else {
        precedes(a.drop_first(), b.drop_first())
    }
}

/// The texts of a sequence of strings.
pub open spec fn texts(strings: Seq<String>) -> Seq<Seq<char>> {
    strings.map_values(|s: String| s@)
}

/// Whether a character has the Unicode property `White_Space`.
fn is_white_space(c: char) -> (r: bool)
    ensures
        r == white_space(c),
{
    ('\u{9}' <= c && c <= '\u{d}') || c == ' ' || c == '\u{85}' || c == '\u{a0}' || c
        == '\u{1680}' || ('\u{2000}' <= c && c <= '\u{200a}') || c == '\u{2028}' || c
        == '\u{2029}' || c == '\u{202f}' || c == '\u{205f}' || c == '\u{3000}'
}

/// The characters of `s`.
pub fn chars_of(s: &str) -> (v: Vec<char>)
    ensures
        v@ == s@,
{
    let mut v: Vec<char> = Vec::new();
    for c in it: s.chars()
        invariant
            v@ == s@.take(it.index()),
            it.seq() == s@,
    {
        v.push(c);
        assert(s@.take(it.index() + 1) == s@.take(it.index()).push(c));
    }
    assert(s@.take(s@.len() as int) == s@);
    v
}

/// Whether two strings hold the same text.
pub fn same(a: &str, b: &str) -> (r: bool)
    ensures
        r == (a@ == b@),
{
    a.to_owned() == b.to_owned()
}

/// `text` without the white space at both ends.
pub fn trim<'a>(text: &'a str) -> (r: &'a str)
    ensures
        r@ == trimmed(text@),
{
    let chars = chars_of(text);
    let n: usize = chars.len();
    let mut start: usize = 0;
    assert(text@.skip(0) == text@);
    while start < n && is_white_space(chars[start])
        invariant
            start <= n,
            n == chars@.len(),
            chars@ == text@,
            trimmed_start(text@.skip(start as int)) == trimmed_start(text@),
        decreases n - start,
    {
        assert(text@.skip(start as int).drop_first() == text@.skip(start + 1));
        start = start + 1;
    }
    let ghost rest = text@.skip(start as int);
    assert(trimmed_start(text@) == rest);
    let mut end: usize = n;
    assert(text@.subrange(start as int, n as int) == rest);
    while start < end && is_white_space(chars[end - 1])
        invariant
            start <= end <= n,
            n == chars@.len(),
            chars@ == text@,
            trimmed_end(text@.subrange(start as int, end as int)) == trimmed_end(rest),
        decreases end,
    {
        assert(text@.subrange(start as int, end as int).drop_last() == text@.subrange(
            start as int,
            end - 1,
        ));
        end = end - 1;
    }
    text.substring_char(start, end)
}

/// Whether `part` stands in `text` from position `at` on.
fn stands_at(text: &Vec<char>, part: &Vec<char>, at: usize) -> (r: bool)
    requires
        at <= text@.len(),
    ensures
        r == occurs_at(text@, part@, at as int),
{
    let n: usize = part.len();
    if n > text.len() - at {
        return false;
    }
    let mut i: usize = 0;
    while i < n
        invariant
            i <= n,
            n == part@.len(),
            at + n <= text.len(),
            forall|j: int| 0 <= j < i ==> text@[at + j] == part@[j],
        decreases n - i,
    {
        if text[at + i] != part[i] {
            assert(text@.subrange(at as int, at + n)[i as int] != part@[i as int]);
            return false;
        }
        i = i + 1;
    }
    assert(text@.subrange(at as int, at + n) =~= part@);
    true
}

/// Replaces every match of `from` in `text` by `to`.
pub fn replace(text: &str, from: &str, to: &str) -> (r: String)
    ensures
        r@ == replaced(text@, from@, to@),
{
    let chars = chars_of(text);
    let part = chars_of(from);
    let n: usize = chars.len();
    let mut out = String::new();
    let mut i: usize = 0;
    assert(text@.skip(0) == text@);
    if part.len() == 0 {
        assert(out@ + replaced(text@, from@, to@) == replaced(text@, from@, to@));
        while i < n
            invariant
                i <= n,
                n == chars@.len(),
                chars@ == text@,
                from@.len() == 0,
                out@ + replaced(text@.skip(i as int), from@, to@) == replaced(
                    text@,
                    from@,
                    to@,
                ),
            decreases n - i,
        {
            let ghost rest = text@.skip(i as int);
            let ghost before = out@;
            out.append(to);
            out.append(text.substring_char(i, i + 1));
            assert(rest.drop_first() == text@.skip(i + 1));
            assert(text@.subrange(i as int, i + 1) == seq![rest[0]]);
            let ghost tail = replaced(rest.drop_first(), from@, to@);
            assert(before + to@ + seq![rest[0]] + tail == before + (to@.push(rest[0]) + tail));
            i = i + 1;
        }
        out.append(to);
        return out;
    }
    let mut start: usize = 0;
    assert(out@ + text@.subrange(0, 0) + replaced(text@, from@, to@) == replaced(
        text@,
        from@,
        to@,
    ));
    while i < n
        invariant
            start <= i <= n,
            n == chars@.len(),
            chars@ == text@,
            part@ == from@,
            from@.len() > 0,
            out@ + text@.subrange(start as int, i as int) + replaced(
                text@.skip(i as int),
                from@,
                to@,
            ) == replaced(text@, from@, to@),
        decreases n - i,
    {
        let ghost rest = text@.skip(i as int);
        let ghost before = out@;
        let ghost kept = text@.subrange(start as int, i as int);
        let found = stands_at(&chars, &part, i);
        assert(found == occurs_at(rest, from@, 0)) by {
            if i + from@.len() <= n {
                assert(rest.subrange(0, from@.len() as int) == text@.subrange(
                    i as int,
                    i + from@.len(),
                ));
            }
        }
        if found {
            out.append(text.substring_char(start, i));
            out.append(to);
            assert(rest.skip(from@.len() as int) == text@.skip(i + from@.len()));
            let ghost tail = replaced(rest.skip(from@.len() as int), from@, to@);
            i = i + part.len();
            start = i;
            assert(text@.subrange(start as int, i as int) == Seq::<char>::empty());
            assert(before + kept + to@ + Seq::<char>::empty() + tail == before + kept + (to@
                + tail));
        } else {
            assert(rest.drop_first() == text@.skip(i + 1));
            let ghost tail = replaced(rest.drop_first(), from@, to@);
            assert(text@.subrange(start as int, i + 1) == kept + seq![rest[0]]);
            assert(before + (kept + seq![rest[0]]) + tail == before + kept + (seq![rest[0]]
                + tail));
            i = i + 1;
        }
    }
    out.append(text.substring_char(start, n));
    assert(text@.skip(n as int) == Seq::<char>::empty());
    assert(!occurs_at(text@.skip(n as int), from@, 0));
    out
}

/// The position of the first `mark` at or after `start`, or the number of characters.
fn find_mark(chars: &Vec<char>, mark: char, start: usize) -> (at: usize)
    requires
        start <= chars@.len(),
    ensures
        start <= at <= chars@.len(),
        at == start + first_of(chars@.skip(start as int), mark),
{
    let n: usize = chars.len();
    let mut at: usize = start;
    while at < n && chars[at] != mark
        invariant
            start <= at <= n,
            n == chars@.len(),
            first_of(chars@.skip(start as int), mark) == at - start + first_of(
                chars@.skip(at as int),
                mark,
            ),
        decreases n - at,
    {
        assert(chars@.skip(at as int).drop_first() == chars@.skip(at + 1));
        at = at + 1;
    }
    at
}

/// The part of `text` in front of the first `mark`, or all of it.
pub fn head_of<'a>(text: &'a str, mark: char) -> (r: &'a str)
    ensures
        r@ == head(text@, mark),
{
    let chars = chars_of(text);
    let at = find_mark(&chars, mark, 0);
    assert(text@.skip(0) == text@);
    assert(text@.subrange(0, at as int) == text@.take(at as int));
    text.substring_char(0, at)
}

/// Whether `mark` stands in `text`.
pub fn has_mark(text: &str, mark: char) -> (r: bool)
    ensures
        r == text@.contains(mark),
{
    let chars = chars_of(text);
    let n: usize = chars.len();
    let mut i: usize = 0;
    while i < n
        invariant
            i <= n,
            n == chars@.len(),
            chars@ == text@,
            forall|j: int| 0 <= j < i ==> text@[j] != mark,
        decreases n - i,
    {
        if chars[i] == mark {
            return true;
        }
        i = i + 1;
    }
    false
}

/// The parts of `text` between the occurrences of `mark`.
pub fn split_at_marks(text: &str, mark: char) -> (parts: Vec<String>)
    ensures
        texts(parts@) == split(text@, mark),
{
    let chars = chars_of(text);
    let n: usize = chars.len();
    let mut parts: Vec<String> = Vec::new();
    let mut start: usize = 0;
    assert(text@.skip(0) == text@);
    assert(texts(parts@) + split(text@, mark) == split(text@, mark));
    loop
        invariant
            start <= n,
            n == chars@.len(),
            chars@ == text@,
            texts(parts@) + split(text@.skip(start as int), mark) == split(text@, mark),
        decreases n - start,
    {
        let ghost rest = text@.skip(start as int);
        let ghost before = parts@;
        let at = find_mark(&chars, mark, start);
        let part = text.substring_char(start, at).to_owned();
        parts.push(part);
        assert(texts(parts@) == texts(before).push(part@));
        assert(part@ == rest.take(at - start));
        if at >= n {
            assert(rest.take(at - start) == rest);
            assert(texts(before).push(rest) == texts(before) + seq![rest]);
            return parts;
        }
        assert(rest.skip(at - start + 1) == text@.skip(at + 1));
        let ghost tail = split(text@.skip(at + 1), mark);
        assert(texts(before).push(part@) + tail == texts(before) + (seq![part@] + tail));
        start = at + 1;
    }
}

/// What follows the first match of `part` in `text`.
pub fn rest_after<'a>(text: &'a str, part: &str) -> (r: Option<&'a str>)
    ensures
        r is Some <==> after_first(text@, part@) is Some,
        r matches Some(rest) ==> rest@ == after_first(text@, part@)->0,
{
    let chars = chars_of(text);
    let pattern = chars_of(part);
    let n: usize = chars.len();
    let mut i: usize = 0;
    assert(text@.skip(0) == text@);
    loop
        invariant
            i <= n,
            n == chars@.len(),
            chars@ == text@,
            pattern@ == part@,
            after_first(text@.skip(i as int), part@) == after_first(text@, part@),
        decreases n - i,
    {
        let ghost rest = text@.skip(i as int);
        let found = stands_at(&chars, &pattern, i);
        assert(found == occurs_at(rest, part@, 0)) by {
            if i + part@.len() <= n {
                assert(rest.subrange(0, part@.len() as int) == text@.subrange(
                    i as int,
                    i + part@.len(),
                ));
            }
        }
        if found {
            let tail = text.substring_char(i + pattern.len(), n);
            assert(tail@ == rest.skip(part@.len() as int));
            return Some(tail);
        }
        if i == n {
            return None;
        }
        assert(rest.drop_first() == text@.skip(i + 1));
        i = i + 1;
    }
}

/// The numeral of a single digit.
fn digit_text(d: usize) -> (r: &'static str)
    requires
        d < 10,
    ensures
        r@ == seq![digit(d as nat)],
{
    proof {
        reveal_strlit("0");
        reveal_strlit("1");
        reveal_strlit("2");
        reveal_strlit("3");
        reveal_strlit("4");
        reveal_strlit("5");
        reveal_strlit("6");
        reveal_strlit("7");
        reveal_strlit("8");
        reveal_strlit("9");
    }
    match d {
        0 => "0",
        1 => "1",
        2 => "2",
        3 => "3",
        4 => "4",
        5 => "5",
        6 => "6",
        7 => "7",
        8 => "8",
        _ => "9",
    }
}

/// The decimal numeral of `n`.
pub fn decimal_of(n: usize) -> (r: String)
    ensures
        r@ == decimal(n as nat),
    decreases n,
{
    if n < 10 {
        digit_text(n).to_owned()
    } else {
        let mut r = decimal_of(n / 10);
        r.append(digit_text(n % 10));
        assert(r@ == decimal((n / 10) as nat).push(digit((n % 10) as nat)));
        r
    }
}

/// Whether `a` comes before `b` in the order of strings.
pub fn comes_before(a: &str, b: &str) -> (r: bool)
    ensures
        r == precedes(a@, b@),
{
    let left = chars_of(a);
    let right = chars_of(b);
    let mut i: usize = 0;
    assert(a@.skip(0) == a@);
    assert(b@.skip(0) == b@);
    loop
        invariant
            i <= left@.len(),
            i <= right@.len(),
            left@ == a@,
            right@ == b@,
            precedes(a@.skip(i as int), b@.skip(i as int)) == precedes(a@, b@),
        decreases left@.len() - i,
    {
        if i == right.len() {
            return false;
        }
        if i == left.len() {
            return true;
        }
        if left[i] != right[i] {
            return left[i] < right[i];
        }
        assert(a@.skip(i as int).drop_first() == a@.skip(i + 1));
        assert(b@.skip(i as int).drop_first() == b@.skip(i + 1));
        i = i + 1;
    }
}

/// No text comes before itself.
pub proof fn lemma_precedes_irreflexive(a: Seq<char>)
    ensures
        !precedes(a, a),
    decreases a.len(),
{
    if a.len() > 0 {
        lemma_precedes_irreflexive(a.drop_first());
    }
}

/// The order of strings is transitive.
pub proof fn lemma_precedes_transitive(a: Seq<char>, b: Seq<char>, c: Seq<char>)
    requires
        precedes(a, b),
        precedes(b, c),
    ensures
        precedes(a, c),
    decreases a.len(),
{
    if a.len() > 0 && b.len() > 0 && c.len() > 0 && a[0] == b[0] && b[0] == c[0] {
        lemma_precedes_transitive(a.drop_first(), b.drop_first(), c.drop_first());
    }
}

/// Of two texts that differ, one comes before the other.
pub proof fn lemma_precedes_total(a: Seq<char>, b: Seq<char>)
    requires
        a != b,
    ensures
        precedes(a, b) || precedes(b, a),
    decreases a.len(),
{
    if a.len() > 0 && b.len() > 0 && a[0] == b[0] {
        assert(a.drop_first() != b.drop_first()) by {
            if a.drop_first() == b.drop_first() {
                assert(a =~= seq![a[0]] + a.drop_first());
                assert(b =~= seq![b[0]] + b.drop_first());
            }
        }
        lemma_precedes_total(a.drop_first(), b.drop_first());
    } else if a.len() == 0 && b.len() == 0 {
        assert(a =~= b);
    }
}

} // verus!
