//! Splitting a text on every occurrence of a separator.
//!
//! Occurrences are taken from left to right and do not overlap: after one is
//! found, the search goes on behind it. A text with `n` such occurrences has
//! `n + 1` pieces, some of which may be empty. An empty separator occurs
//! before every character and at the end of the text.

use crate::text::Span;
use vstd::prelude::*;

verus! {

/// Whether `pattern` stands in `text` at position `at`.
pub open spec fn occurs_at(text: Seq<char>, pattern: Seq<char>, at: int) -> bool {
    &&& 0 <= at
    &&& at + pattern.len() <= text.len()
    &&& text.subrange(at, at + pattern.len()) == pattern
}

/// The first position at or after `from` where `pattern` stands in `text`.
pub open spec fn find_from(text: Seq<char>, pattern: Seq<char>, from: int) -> Option<int>
    decreases text.len() - from + 1,
{
    if from < 0 || from + pattern.len() > text.len() {
        None
    } else if occurs_at(text, pattern, from) {
        Some(from)
    } else {
        find_from(text, pattern, from + 1)
    }
}

/// The pieces of `text[from..]` between the occurrences of a non-empty
/// `separator`.
pub open spec fn split_from(text: Seq<char>, separator: Seq<char>, from: int) -> Seq<Seq<char>>
    decreases text.len() - from,
{
    match find_from(text, separator, from) {
        Some(at) => if from <= at && at + separator.len() <= text.len() && separator.len() > 0 {
            seq![text.subrange(from, at)] + split_from(text, separator, at + separator.len())
        } else {
            seq![text.subrange(from, text.len() as int)]
        },
        None => seq![text.subrange(from, text.len() as int)],
    }
}

/// The pieces of `text` for the empty separator: an empty piece, each
/// character by itself, and an empty piece.
pub open spec fn split_chars(text: Seq<char>) -> Seq<Seq<char>> {
    seq![Seq::<char>::empty()] + Seq::new(text.len(), |i: int| seq![text[i]]) + seq![
        Seq::<char>::empty(),
    ]
}

/// The pieces of `text` between the occurrences of `separator`.
pub open spec fn split(text: Seq<char>, separator: Seq<char>) -> Seq<Seq<char>> {
    if separator.len() == 0 {
        split_chars(text)
    } else {
        split_from(text, separator, 0)
    }
}

/// The pieces joined again, with `separator` between each two.
pub open spec fn join(pieces: Seq<Seq<char>>, separator: Seq<char>) -> Seq<char>
    decreases pieces.len(),
{
    if pieces.len() == 0 {
        Seq::empty()
    } else if pieces.len() == 1 {
        pieces[0]
    } else {
        pieces[0] + separator + join(pieces.drop_first(), separator)
    }
}

/// Whether `spans` lie one behind the other in a text of `len` characters,
/// from its start to its end, with `gap` characters between each two.
pub open spec fn adjoining(spans: Seq<Span>, gap: nat, len: nat) -> bool {
    &&& spans.len() >= 1
    &&& spans.first().start == 0
    &&& spans.last().end == len
    &&& forall|i: int|
        0 <= i < spans.len() - 1 ==> (#[trigger] spans[i + 1]).start == spans[i].end + gap
}

/// The parts of `text` that `spans` cover, in order.
pub open spec fn pieces(text: Seq<char>, spans: Seq<Span>) -> Seq<Seq<char>> {
    spans.map_values(|span: Span| span.of(text))
}

/// Whether `pattern` stands in `text` at position `at`.
pub fn occurs(text: &[char], pattern: &[char], at: usize) -> (found: bool)
    requires
        at + pattern@.len() <= text@.len(),
    ensures
        found == occurs_at(text@, pattern@, at as int),
{
    let len: usize = text.len();
    let mut k: usize = 0;
    while k < pattern.len()
        invariant
            k <= pattern@.len(),
            len == text@.len(),
            at + pattern@.len() <= text@.len(),
            forall|j: int| 0 <= j < k ==> text@[at + j] == #[trigger] pattern@[j],
        decreases pattern@.len() - k,
    {
        if text[at + k] != pattern[k] {
            assert(text@.subrange(at as int, at + pattern@.len())[k as int] != pattern@[k as int]);
            return false;
        }
        k += 1;
    }
    assert(text@.subrange(at as int, at + pattern@.len()) =~= pattern@);
    true
}

/// The spans of the pieces of `text` between the occurrences of
/// `separator`, in order.
pub fn split_spans(text: &[char], separator: &[char]) -> (spans: Vec<Span>)
    ensures
        forall|i: int| 0 <= i < spans@.len() ==> (#[trigger] spans@[i]).within(text@.len()),
        pieces(text@, spans@) == split(text@, separator@),
        adjoining(spans@, separator@.len(), text@.len()),
{
    let len: usize = text.len();
    let width: usize = separator.len();
    let mut spans: Vec<Span> = Vec::new();
    if width == 0 {
        spans.push(Span { start: 0, end: 0 });
        assert(pieces(text@, spans@) =~~= seq![Seq::<char>::empty()] + Seq::new(
            0,
            |j: int| seq![text@[j]],
        ));
        let mut i: usize = 0;
        while i < len
            invariant
                i <= len == text@.len(),
                spans@.len() == i + 1,
                spans@.first().start == 0,
                spans@.last().end == i,
                forall|j: int|
                    0 <= j < spans@.len() - 1 ==> (#[trigger] spans@[j + 1]).start == spans@[j].end,
                forall|j: int| 0 <= j < spans@.len() ==> (#[trigger] spans@[j]).within(text@.len()),
                pieces(text@, spans@) == seq![Seq::<char>::empty()] + Seq::new(
                    i as nat,
                    |j: int| seq![text@[j]],
                ),
            decreases len - i,
        {
            let ghost before = spans@;
            spans.push(Span { start: i, end: i + 1 });
            assert(pieces(text@, spans@) =~~= pieces(text@, before).push(seq![text@[i as int]]));
            i += 1;
            assert(pieces(text@, spans@) =~~= seq![Seq::<char>::empty()] + Seq::new(
                i as nat,
                |j: int| seq![text@[j]],
            ));
        }
        let ghost before = spans@;
        spans.push(Span { start: len, end: len });
        assert(pieces(text@, spans@) =~~= pieces(text@, before).push(Seq::<char>::empty()));
        assert(pieces(text@, spans@) =~~= split_chars(text@));
        return spans;
    }
    let mut start: usize = 0;
    let mut at: usize = 0;
    assert(pieces(text@, spans@) + split_from(text@, separator@, 0) =~= split_from(
        text@,
        separator@,
        0,
    ));
    while width <= len - at
        invariant
            start <= at <= len == text@.len(),
            0 < width == separator@.len(),
            spans@.len() == 0 ==> start == 0,
            spans@.len() > 0 ==> spans@.first().start == 0 && spans@.last().end + width == start,
            forall|j: int|
                0 <= j < spans@.len() - 1 ==> (#[trigger] spans@[j + 1]).start == spans@[j].end
                    + width,
            find_from(text@, separator@, start as int) == find_from(text@, separator@, at as int),
            forall|j: int| 0 <= j < spans@.len() ==> (#[trigger] spans@[j]).within(text@.len()),
            split_from(text@, separator@, 0) == pieces(text@, spans@) + split_from(
                text@,
                separator@,
                start as int,
            ),
        decreases len - at,
    {
        if occurs(text, separator, at) {
            let ghost before = spans@;
            let ghost rest = split_from(text@, separator@, at + width);
            spans.push(Span { start, end: at });
            assert(pieces(text@, spans@) =~= pieces(text@, before).push(
                text@.subrange(start as int, at as int),
            ));
            assert(pieces(text@, spans@) + rest =~= pieces(text@, before) + (seq![
                text@.subrange(start as int, at as int),
            ] + rest));
            at = at + width;
            start = at;
        } else {
            at += 1;
        }
    }
    let ghost before = spans@;
    spans.push(Span { start, end: len });
    assert(pieces(text@, spans@) =~= pieces(text@, before) + seq![
        text@.subrange(start as int, len as int),
    ]);
    spans
}

/// `find_from` finds the first occurrence: it names a position exactly where
/// the pattern stands there and nowhere between `from` and there, and it
/// names none exactly where the pattern stands nowhere from `from` on.
pub proof fn lemma_find_from_is_first(text: Seq<char>, pattern: Seq<char>, from: int)
    requires
        0 <= from,
    ensures
        match find_from(text, pattern, from) {
            Some(at) => from <= at && occurs_at(text, pattern, at) && forall|j: int|
                from <= j < at ==> !occurs_at(text, pattern, j),
            None => forall|j: int| from <= j ==> !occurs_at(text, pattern, j),
        },
    decreases text.len() - from + 1,
{
    if from + pattern.len() <= text.len() && !occurs_at(text, pattern, from) {
        lemma_find_from_is_first(text, pattern, from + 1);
    }
}

/// Where the pattern stands at `at` and nowhere between `from` and `at`,
/// `find_from` names `at`.
pub proof fn lemma_first_is_found(text: Seq<char>, pattern: Seq<char>, from: int, at: int)
    requires
        0 <= from <= at,
        occurs_at(text, pattern, at),
        forall|j: int| from <= j < at ==> !occurs_at(text, pattern, j),
    ensures
        find_from(text, pattern, from) == Some(at),
{
    lemma_find_from_is_first(text, pattern, from);
}

/// A split has at least one piece.
pub proof fn lemma_split_has_pieces(text: Seq<char>, separator: Seq<char>)
    ensures
        split(text, separator).len() >= 1,
{
}

/// A text in which a non-empty separator stands exactly once, at the end of
/// `before` and in front of `after`, splits into `before` and `after`.
pub proof fn lemma_one_separator_two_pieces(
    text: Seq<char>,
    separator: Seq<char>,
    before: Seq<char>,
    after: Seq<char>,
)
    requires
        separator.len() > 0,
        text == before + separator + after,
        forall|at: int| occurs_at(text, separator, at) ==> at == before.len(),
    ensures
        split(text, separator) == seq![before, after],
{
    let at = before.len() as int;
    let behind = at + separator.len();
    assert(text.subrange(at, behind) =~= separator);
    lemma_first_is_found(text, separator, 0, at);
    lemma_find_from_is_first(text, separator, behind);
    assert(find_from(text, separator, behind) is None);
    assert(text.subrange(0, at) =~= before);
    assert(text.subrange(behind, text.len() as int) =~= after);
    assert(split_from(text, separator, behind) =~= seq![after]);
    assert(split_from(text, separator, 0) =~= seq![before] + split_from(text, separator, behind));
    assert(split(text, separator) =~= seq![before, after]);
}

/// A text in which a non-empty separator stands nowhere is its own single
/// piece.
pub proof fn lemma_no_separator_one_piece(text: Seq<char>, separator: Seq<char>)
    requires
        separator.len() > 0,
        forall|at: int| !occurs_at(text, separator, at),
    ensures
        split(text, separator) == seq![text],
{
    lemma_find_from_is_first(text, separator, 0);
    assert(text.subrange(0, text.len() as int) =~= text);
}

/// Splitting loses nothing: the pieces from `from` on, joined with the
/// separator, are the text from `from` on.
pub proof fn lemma_split_from_joins_back(text: Seq<char>, separator: Seq<char>, from: int)
    requires
        separator.len() > 0,
        0 <= from <= text.len(),
    ensures
        join(split_from(text, separator, from), separator) == text.subrange(
            from,
            text.len() as int,
        ),
    decreases text.len() - from,
{
    lemma_find_from_is_first(text, separator, from);
    match find_from(text, separator, from) {
        Some(at) => {
            let behind = at + separator.len();
            let rest = split_from(text, separator, behind);
            let all = split_from(text, separator, from);
            lemma_split_from_joins_back(text, separator, behind);
            assert(all =~= seq![text.subrange(from, at)] + rest);
            assert(all.drop_first() =~= rest);
            assert(join(all, separator) =~= text.subrange(from, text.len() as int));
        },
        None => {},
    }
}

/// Splitting loses nothing: the pieces of a text, joined with the separator,
/// are the text.
pub proof fn lemma_split_joins_back(text: Seq<char>, separator: Seq<char>)
    requires
        separator.len() > 0,
    ensures
        join(split(text, separator), separator) == text,
{
    lemma_split_from_joins_back(text, separator, 0);
    assert(text.subrange(0, text.len() as int) =~= text);
}

} // verus!
