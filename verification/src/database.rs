//! The quote database format: a text whose entries are set apart by a
//! separator, each entry taken without the white space around it.

use crate::split::{
    lemma_one_separator_two_pieces, occurs, occurs_at, pieces, split, split_spans,
};
use crate::text::{
    chars_of, is_trimmed, lemma_trim_either_end_first, lemma_trim_end_is_prefix,
    lemma_trim_end_keeps, lemma_trim_is_trimmed, lemma_trim_start_drops,
    lemma_trim_start_is_suffix, string_of, trim, trim_end, trim_span, trim_start, white_space,
};
use vstd::prelude::*;
use vstd::slice::{slice_subrange, slice_to_vec};

verus! {

/// The number of dashes in the default separator.
pub const DEFAULT_SEPARATOR_WIDTH: usize = 30;

/// The format name that selects the default separator.
pub open spec fn default_keyword() -> Seq<char> {
    seq!['d', 'e', 'f', 'a', 'u', 'l', 't']
}

/// The default separator: thirty dashes.
pub open spec fn default_separator() -> Seq<char> {
    Seq::new(DEFAULT_SEPARATOR_WIDTH as nat, |i: int| '-')
}

/// The separator that a format names: the default separator for the name
/// `default`, else the format itself.
pub open spec fn separator(format: Seq<char>) -> Seq<char> {
    if format == default_keyword() {
        default_separator()
    } else {
        format
    }
}

/// The entries of a database text: the trimmed text is split on the
/// separator, and each piece is trimmed. No piece is dropped.
pub open spec fn entries(text: Seq<char>, format: Seq<char>) -> Seq<Seq<char>> {
    split(trim(text), separator(format)).map_values(|piece: Seq<char>| trim(piece))
}

/// The characters of each string of a list.
pub open spec fn strings_view(strings: Seq<String>) -> Seq<Seq<char>> {
    strings.map_values(|s: String| s@)
}

/// The separator that `format` names.
pub fn resolve_separator(format: &[char]) -> (chosen: Vec<char>)
    ensures
        chosen@ == separator(format@),
{
    let keyword = chars_of("default");
    proof {
        reveal_strlit("default");
        assert(keyword@ =~= default_keyword());
    }
    if format.len() == keyword.len() && occurs(format, keyword.as_slice(), 0) {
        assert(format@.subrange(0, format@.len() as int) =~= format@);
        let mut dashes: Vec<char> = Vec::new();
        while dashes.len() < DEFAULT_SEPARATOR_WIDTH
            invariant
                dashes@.len() <= DEFAULT_SEPARATOR_WIDTH,
                forall|i: int| 0 <= i < dashes@.len() ==> dashes@[i] == '-',
            decreases DEFAULT_SEPARATOR_WIDTH - dashes@.len(),
        {
            dashes.push('-');
        }
        assert(dashes@ =~= default_separator());
        dashes
    } else {
        assert(format@ != default_keyword()) by {
            if format@.len() == default_keyword().len() {
                assert(format@.subrange(0, format@.len() as int) =~= format@);
            }
        }
        slice_to_vec(format)
    }
}

/// Reads the entries of the database text `text`, whose separator the
/// format `format` names.
pub fn parse_entries(text: &str, format: &str) -> (found: Vec<String>)
    ensures
        strings_view(found@) == entries(text@, format@),
{
    let chars = chars_of(text);
    let format_chars = chars_of(format);
    let chosen = resolve_separator(format_chars.as_slice());
    let kept = trim_span(chars.as_slice(), 0, chars.len());
    assert(chars@.subrange(0, chars@.len() as int) =~= chars@);
    let body = slice_subrange(chars.as_slice(), kept.start, kept.end);
    let spans = split_spans(body, chosen.as_slice());
    let mut found: Vec<String> = Vec::new();
    let mut i: usize = 0;
    while i < spans.len()
        invariant
            i <= spans@.len(),
            found@.len() == i,
            forall|j: int| 0 <= j < spans@.len() ==> (#[trigger] spans@[j]).within(body@.len()),
            forall|j: int|
                0 <= j < i ==> (#[trigger] found@[j])@ == trim(pieces(body@, spans@)[j]),
        decreases spans@.len() - i,
    {
        let span = spans[i];
        let inner = trim_span(body, span.start, span.end);
        found.push(string_of(slice_subrange(body, inner.start, inner.end)));
        i += 1;
    }
    assert(strings_view(found@) =~= entries(text@, format@));
    found
}

/// A database always has entries: even an empty text has one, the empty
/// entry.
pub proof fn lemma_entries_exist(text: Seq<char>, format: Seq<char>)
    ensures
        entries(text, format).len() >= 1,
{
}

/// No entry starts or ends with white space.
pub proof fn lemma_entries_are_trimmed(text: Seq<char>, format: Seq<char>)
    ensures
        forall|i: int|
            0 <= i < entries(text, format).len() ==> is_trimmed(#[trigger] entries(text, format)[i]),
{
    let found = split(trim(text), separator(format));
    assert forall|i: int| 0 <= i < entries(text, format).len() implies is_trimmed(
        #[trigger] entries(text, format)[i],
    ) by {
        lemma_trim_is_trimmed(found[i]);
    }
}

/// A database in which the separator stands exactly once has exactly two
/// entries: what stands before the separator and what stands after it, each
/// trimmed.
pub proof fn lemma_one_separator_two_entries(
    text: Seq<char>,
    format: Seq<char>,
    before: Seq<char>,
    after: Seq<char>,
)
    requires
        separator(format).len() > 0,
        trim(text) == before + separator(format) + after,
        forall|at: int| occurs_at(trim(text), separator(format), at) ==> at == before.len(),
    ensures
        entries(text, format) == seq![trim(before), trim(after)],
        is_trimmed(trim(before)),
        is_trimmed(trim(after)),
{
    lemma_one_separator_two_pieces(trim(text), separator(format), before, after);
    lemma_trim_is_trimmed(before);
    lemma_trim_is_trimmed(after);
    assert(entries(text, format) =~= seq![trim(before), trim(after)]);
}

/// A text around one separator is trimmed at its two outer ends only, as
/// long as the separator itself neither starts nor ends with white space.
pub proof fn lemma_trim_around_separator(before: Seq<char>, middle: Seq<char>, after: Seq<char>)
    requires
        middle.len() > 0,
        !white_space(middle.first()),
        !white_space(middle.last()),
    ensures
        trim(before + middle + after) == trim_start(before) + middle + trim_end(after),
{
    let text = before + middle + after;
    let k = lemma_trim_start_is_suffix(before);
    assert forall|j: int| 0 <= j < k implies white_space(#[trigger] text[j]) by {
        assert(text[j] == before[j]);
    }
    assert(!white_space(text[k])) by {
        if k < before.len() {
            assert(text[k] == before[k]);
        } else {
            assert(text[k] == middle[0]);
        }
    }
    lemma_trim_start_drops(text, k);
    let kept = trim_start(before) + middle + after;
    assert(text.subrange(k, text.len() as int) =~= kept);
    let m = lemma_trim_end_is_prefix(after);
    let cut = trim_start(before).len() + middle.len() + m;
    assert forall|j: int| cut <= j < kept.len() implies white_space(#[trigger] kept[j]) by {
        assert(kept[j] == after[j - trim_start(before).len() - middle.len()]);
    }
    assert(!white_space(kept[cut - 1])) by {
        if m > 0 {
            assert(kept[cut - 1] == after[m - 1]);
        } else {
            assert(kept[cut - 1] == middle.last());
        }
    }
    lemma_trim_end_keeps(kept, cut);
    assert(kept.subrange(0, cut) =~= trim_start(before) + middle + trim_end(after));
}

/// A database text in which the separator stands exactly once has exactly
/// two entries, as long as the separator neither starts nor ends with white
/// space: what stands before the separator and what stands after it, each
/// trimmed. The default separator is of that kind.
pub proof fn lemma_one_separator_in_text(
    text: Seq<char>,
    format: Seq<char>,
    before: Seq<char>,
    after: Seq<char>,
)
    requires
        separator(format).len() > 0,
        !white_space(separator(format).first()),
        !white_space(separator(format).last()),
        text == before + separator(format) + after,
        forall|at: int| occurs_at(text, separator(format), at) ==> at == before.len(),
    ensures
        entries(text, format) == seq![trim(before), trim(after)],
        is_trimmed(trim(before)),
        is_trimmed(trim(after)),
{
    let chosen = separator(format);
    let head = trim_start(before);
    let tail = trim_end(after);
    let k = lemma_trim_start_is_suffix(before);
    lemma_trim_around_separator(before, chosen, after);
    let m = lemma_trim_end_is_prefix(after);
    let body = head + chosen + tail;
    assert(body =~= text.subrange(k, k + body.len()));
    assert forall|at: int| occurs_at(body, chosen, at) implies at == head.len() by {
        assert(body.subrange(at, at + chosen.len()) =~= text.subrange(
            at + k,
            at + k + chosen.len(),
        ));
        assert(occurs_at(text, chosen, at + k));
    }
    lemma_one_separator_two_entries(text, format, head, tail);
    assert(trim_start(head) == head);
    lemma_trim_either_end_first(after);
    lemma_trim_end_is_prefix(trim_start(after));
    assert(trim_end(trim_end(trim_start(after))) == trim_end(trim_start(after))) by {
        let inner = trim_end(trim_start(after));
        if inner.len() > 0 {
            assert(!white_space(inner.last()));
        }
    }
}

/// Under the default format, a database text in which thirty dashes stand
/// exactly once has exactly two entries, and neither starts or ends with
/// white space.
pub proof fn lemma_default_one_separator(text: Seq<char>, before: Seq<char>, after: Seq<char>)
    requires
        text == before + default_separator() + after,
        forall|at: int| occurs_at(text, default_separator(), at) ==> at == before.len(),
    ensures
        entries(text, default_keyword()) == seq![trim(before), trim(after)],
        is_trimmed(trim(before)),
        is_trimmed(trim(after)),
{
    assert(default_separator().first() == '-');
    assert(default_separator().last() == '-');
    lemma_one_separator_in_text(text, default_keyword(), before, after);
}

/// The default format selects thirty dashes; every other format is its own
/// separator.
pub proof fn lemma_separator_of_format(format: Seq<char>)
    ensures
        separator(default_keyword()).len() == 30,
        forall|i: int| 0 <= i < 30 ==> separator(default_keyword())[i] == '-',
        format != default_keyword() ==> separator(format) == format,
{
}

} // verus!
