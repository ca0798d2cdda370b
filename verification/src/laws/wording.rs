//! What the operations on text do, stated on how the texts are put together.

use crate::laws::redaction::{lemma_first_of, lemma_trimmed_end, lemma_trimmed_start};
use crate::text::{
    after_first, decimal, digit, head, occurs_at, occurs_in, precedes, replaced, split,
    texts, trimmed, trimmed_end, trimmed_start, white_space,
};
use vstd::prelude::*;

verus! {

/// A part occurs at a position exactly when the text is what stands in front, the part, and what
/// follows.
pub proof fn law_occurrences(text: Seq<char>, part: Seq<char>, at: int)
    ensures
        occurs_at(text, part, at) <==> {
            &&& 0 <= at <= text.len()
            &&& exists|rest: Seq<char>| text == #[trigger] (text.take(at) + part + rest)
        },
{
    if occurs_at(text, part, at) {
        let rest = text.skip(at + part.len());
        assert forall|i: int| 0 <= i < part.len() implies text[at + i] == part[i] by {
            assert(text.subrange(at, at + part.len())[i] == part[i]);
        }
        assert(text =~= text.take(at) + part + rest);
    }
    if 0 <= at <= text.len() && exists|rest: Seq<char>|
        text == #[trigger] (text.take(at) + part + rest) {
        let rest = choose|rest: Seq<char>| text == #[trigger] (text.take(at) + part + rest);
        let whole = text.take(at) + part + rest;
        assert(whole.subrange(at, at + part.len()) =~= part);
    }
}

/// What does not occur in a text does not occur behind its first character.
proof fn lemma_absent_behind(text: Seq<char>, part: Seq<char>)
    requires
        text.len() > 0,
        !occurs_in(text, part),
    ensures
        !occurs_at(text, part, 0),
        !occurs_in(text.drop_first(), part),
{
    let rest = text.drop_first();
    if occurs_in(rest, part) {
        let at = choose|at: int| occurs_at(rest, part, at);
        assert(rest.subrange(at, at + part.len()) =~= text.subrange(at + 1, at + 1 + part.len()));
        assert(occurs_at(text, part, at + 1));
    }
}

/// Where a match is first, nothing in front of it matches when a character is taken away.
proof fn lemma_first_stays_first(before: Seq<char>, part: Seq<char>, after: Seq<char>)
    requires
        before.len() > 0,
        forall|at: int| 0 <= at < before.len() ==> !occurs_at(before + part + after, part, at),
    ensures
        (before + part + after).drop_first() == before.drop_first() + part + after,
        !occurs_at(before + part + after, part, 0),
        forall|at: int|
            0 <= at < before.drop_first().len() ==> !occurs_at(
                before.drop_first() + part + after,
                part,
                at,
            ),
{
    let whole = before + part + after;
    let rest = before.drop_first() + part + after;
    assert(whole.drop_first() =~= rest);
    assert forall|at: int| 0 <= at < before.drop_first().len() implies !occurs_at(
        rest,
        part,
        at,
    ) by {
        assert(!occurs_at(whole, part, at + 1));
        if occurs_at(rest, part, at) {
            assert(rest.subrange(at, at + part.len()) =~= whole.subrange(
                at + 1,
                at + 1 + part.len(),
            ));
        }
    }
}

/// Replacing what does not occur changes nothing.
pub proof fn law_nothing_to_replace(text: Seq<char>, from: Seq<char>, to: Seq<char>)
    requires
        from.len() > 0,
        !occurs_in(text, from),
    ensures
        replaced(text, from, to) == text,
    decreases text.len(),
{
    assert(!occurs_at(text, from, 0));
    if text.len() > 0 {
        lemma_absent_behind(text, from);
        law_nothing_to_replace(text.drop_first(), from, to);
        assert(text =~= seq![text[0]] + text.drop_first());
    }
}

/// The first match gives way to the replacement; what stands in front of it stays, and the rest is
/// replaced in the same way.
pub proof fn law_first_match_gives_way(
    before: Seq<char>,
    from: Seq<char>,
    after: Seq<char>,
    to: Seq<char>,
)
    requires
        from.len() > 0,
        forall|at: int| 0 <= at < before.len() ==> !occurs_at(before + from + after, from, at),
    ensures
        replaced(before + from + after, from, to) == before + to + replaced(after, from, to),
    decreases before.len(),
{
    let whole = before + from + after;
    if before.len() == 0 {
        assert(whole.subrange(0, from.len() as int) =~= from);
        assert(whole.skip(from.len() as int) =~= after);
        assert(before + to =~= to);
    } else {
        lemma_first_stays_first(before, from, after);
        law_first_match_gives_way(before.drop_first(), from, after, to);
        let tail = replaced(after, from, to);
        assert(seq![before[0]] + (before.drop_first() + to + tail) =~= before + to + tail);
        assert(whole[0] == before[0]);
    }
}

/// An empty pattern matches in front of each character and at the end.
pub proof fn law_empty_pattern_matches_everywhere(c: char, rest: Seq<char>, to: Seq<char>)
    ensures
        replaced(Seq::empty(), Seq::empty(), to) == to,
        replaced(seq![c] + rest, Seq::empty(), to) == to + seq![c] + replaced(
            rest,
            Seq::empty(),
            to,
        ),
{
    let whole = seq![c] + rest;
    assert(whole.drop_first() =~= rest);
    assert(to.push(c) =~= to + seq![c]);
}

/// The head of a text is what stands in front of the first mark, and all of a text without marks.
pub proof fn law_head_ends_at_the_first_mark(front: Seq<char>, mark: char, rest: Seq<char>)
    requires
        !front.contains(mark),
    ensures
        head(front, mark) == front,
        head(front + seq![mark] + rest, mark) == front,
{
    lemma_first_of(front, mark, rest);
    assert(front.take(front.len() as int) =~= front);
    assert((front + seq![mark] + rest).take(front.len() as int) =~= front);
}

/// A text is split at each mark: the part in front of the first mark comes first, then the parts
/// of the rest; a text without marks is its only part.
pub proof fn law_splitting_at_each_mark(front: Seq<char>, mark: char, rest: Seq<char>)
    requires
        !front.contains(mark),
    ensures
        split(front, mark) == seq![front],
        split(front + seq![mark] + rest, mark) == seq![front] + split(rest, mark),
{
    lemma_first_of(front, mark, rest);
    let whole = front + seq![mark] + rest;
    assert(whole.take(front.len() as int) =~= front);
    assert(whole.skip(front.len() as int + 1) =~= rest);
}

/// What follows a part is what stands behind its first match.
pub proof fn law_rest_behind_the_first_match(
    before: Seq<char>,
    part: Seq<char>,
    after: Seq<char>,
)
    requires
        forall|at: int| 0 <= at < before.len() ==> !occurs_at(before + part + after, part, at),
    ensures
        after_first(before + part + after, part) == Some(after),
    decreases before.len(),
{
    let whole = before + part + after;
    if before.len() == 0 {
        assert(whole.subrange(0, part.len() as int) =~= part);
        assert(whole.skip(part.len() as int) =~= after);
    } else {
        lemma_first_stays_first(before, part, after);
        law_rest_behind_the_first_match(before.drop_first(), part, after);
    }
}

/// Nothing follows a part that does not occur.
pub proof fn law_no_rest_without_a_match(text: Seq<char>, part: Seq<char>)
    requires
        !occurs_in(text, part),
    ensures
        after_first(text, part) is None,
    decreases text.len(),
{
    assert(!occurs_at(text, part, 0));
    if text.len() > 0 {
        lemma_absent_behind(text, part);
        law_no_rest_without_a_match(text.drop_first(), part);
    }
}

/// Trimming takes away white space at both ends and nothing else, and leaves none there.
pub proof fn law_trimming_takes_white_space_only(text: Seq<char>) -> (ends: (Seq<char>, Seq<char>))
    ensures
        text == ends.0 + trimmed(text) + ends.1,
        forall|i: int| 0 <= i < ends.0.len() ==> white_space(#[trigger] ends.0[i]),
        forall|i: int| 0 <= i < ends.1.len() ==> white_space(#[trigger] ends.1[i]),
        trimmed(text).len() > 0 ==> !white_space(trimmed(text)[0]) && !white_space(
            trimmed(text).last(),
        ),
{
    let front = lemma_front(text);
    let rest = trimmed_start(text);
    let back = lemma_back(rest);
    lemma_trimmed_start(text);
    lemma_trimmed_end(rest);
    assert(text =~= front + trimmed(text) + back);
    if trimmed(text).len() > 0 {
        assert(trimmed(text)[0] == rest[0]);
    }
    (front, back)
}

/// What is trimmed at the start.
proof fn lemma_front(text: Seq<char>) -> (front: Seq<char>)
    ensures
        text == front + trimmed_start(text),
        forall|i: int| 0 <= i < front.len() ==> white_space(#[trigger] front[i]),
    decreases text.len(),
{
    if text.len() > 0 && white_space(text[0]) {
        let rest = lemma_front(text.drop_first());
        let front = seq![text[0]] + rest;
        assert(trimmed_start(text) == trimmed_start(text.drop_first()));
        assert(text =~= seq![text[0]] + text.drop_first());
        assert(seq![text[0]] + (rest + trimmed_start(text)) =~= front + trimmed_start(text));
        assert forall|i: int| 0 <= i < front.len() implies white_space(#[trigger] front[i]) by {
            if i > 0 {
                assert(front[i] == rest[i - 1]);
            }
        }
        front
    } else {
        assert(text =~= Seq::<char>::empty() + text);
        Seq::empty()
    }
}

/// What is trimmed at the end.
proof fn lemma_back(text: Seq<char>) -> (back: Seq<char>)
    ensures
        text == trimmed_end(text) + back,
        forall|i: int| 0 <= i < back.len() ==> white_space(#[trigger] back[i]),
    decreases text.len(),
{
    if text.len() > 0 && white_space(text.last()) {
        let rest = lemma_back(text.drop_last());
        let back = rest.push(text.last());
        assert(trimmed_end(text) == trimmed_end(text.drop_last()));
        assert(text =~= text.drop_last().push(text.last()));
        assert((trimmed_end(text) + rest).push(text.last()) =~= trimmed_end(text) + back);
        back
    } else {
        assert(text =~= text + Seq::<char>::empty());
        Seq::empty()
    }
}

/// The characters that count as white space, by their code points.
pub proof fn law_white_space_by_code_point(c: char)
    ensures
        white_space(c) <==> {
            let code = c as int;
            ||| 9 <= code <= 13
            ||| 0x2000 <= code <= 0x200a
            ||| seq![0x20int, 0x85, 0xa0, 0x1680, 0x2028, 0x2029, 0x202f, 0x205f, 0x3000].contains(
                code,
            )
        },
{
    let single = seq![0x20int, 0x85, 0xa0, 0x1680, 0x2028, 0x2029, 0x202f, 0x205f, 0x3000];
    let code = c as int;
    assert(single[0] == 0x20);
    assert(single[1] == 0x85);
    assert(single[2] == 0xa0);
    assert(single[3] == 0x1680);
    assert(single[4] == 0x2028);
    assert(single[5] == 0x2029);
    assert(single[6] == 0x202f);
    assert(single[7] == 0x205f);
    assert(single[8] == 0x3000);
    if single.contains(code) {
        let i = choose|i: int| 0 <= i < single.len() && single[i] == code;
        assert(i == 0 || i == 1 || i == 2 || i == 3 || i == 4 || i == 5 || i == 6 || i == 7 || i
            == 8);
    }
}

/// A decimal numeral is made of digits, and begins with a zero only when it is the numeral of zero.
pub proof fn law_numerals_are_plain(n: nat)
    ensures
        decimal(n).len() > 0,
        forall|i: int| 0 <= i < decimal(n).len() ==> '0' <= #[trigger] decimal(n)[i] <= '9',
        n > 0 ==> decimal(n)[0] != '0',
        n == 0 ==> decimal(n) == seq!['0'],
    decreases n,
{
    if n >= 10 {
        law_numerals_are_plain(n / 10);
        assert(digit(n % 10) as int == n % 10 + 48);
    } else {
        assert(digit(n) as int == n + 48);
    }
}

/// Texts are ordered by the first character in which they differ; a text comes before every text
/// that it begins.
pub proof fn law_order_of_texts(
    same: Seq<char>,
    c: char,
    d: char,
    left: Seq<char>,
    right: Seq<char>,
)
    ensures
        c != d ==> precedes(same + seq![c] + left, same + seq![d] + right) == (c < d),
        precedes(same, same + seq![d] + right),
        !precedes(same + seq![d] + right, same),
    decreases same.len(),
{
    let a = same + seq![c] + left;
    let b = same + seq![d] + right;
    if same.len() > 0 {
        law_order_of_texts(same.drop_first(), c, d, left, right);
        assert(a.drop_first() =~= same.drop_first() + seq![c] + left);
        assert(b.drop_first() =~= same.drop_first() + seq![d] + right);
        assert(a[0] == same[0] && b[0] == same[0]);
    } else {
        assert(a[0] == c && b[0] == d);
    }
}

/// The texts of strings are those of each of them, in their order.
pub proof fn law_texts_of_strings(strings: Seq<String>)
    ensures
        texts(strings).len() == strings.len(),
        forall|i: int| 0 <= i < strings.len() ==> #[trigger] texts(strings)[i] == strings[i]@,
{
}

} // verus!
