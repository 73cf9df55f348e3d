//! Text as sequences of characters: white space, trimming, and the
//! conversions between `str` and character vectors.

use vstd::prelude::*;
use vstd::std_specs::iter::IteratorSpec;

verus! {

broadcast use vstd::string::group_string_axioms;

/// Whether `c` has the Unicode property `White_Space`.
pub open spec fn white_space(c: char) -> bool {
    let n = c as u32;
    ||| 0x09 <= n <= 0x0d
    ||| n == 0x20
    ||| n == 0x85
    ||| n == 0xa0
    ||| n == 0x1680
    ||| 0x2000 <= n <= 0x200a
    ||| n == 0x2028
    ||| n == 0x2029
    ||| n == 0x202f
    ||| n == 0x205f
    ||| n == 0x3000
}

/// Whether `c` is white space.
#[verifier::when_used_as_spec(white_space)]
pub fn is_whitespace(c: char) -> (b: bool)
    ensures
        b == white_space(c),
{
    let n: u32 = c as u32;
    (0x09 <= n && n <= 0x0d) || n == 0x20 || n == 0x85 || n == 0xa0 || n == 0x1680 || (0x2000 <= n
        && n <= 0x200a) || n == 0x2028 || n == 0x2029 || n == 0x202f || n == 0x205f || n == 0x3000
}

/// `s` without its leading white space.
pub open spec fn trim_start(s: Seq<char>) -> Seq<char>
    decreases s.len(),
{
    if s.len() > 0 && white_space(s[0]) {
        trim_start(s.drop_first())
    } else {
        s
    }
}

/// `s` without its trailing white space.
pub open spec fn trim_end(s: Seq<char>) -> Seq<char>
    decreases s.len(),
{
    if s.len() > 0 && white_space(s.last()) {
        trim_end(s.drop_last())
    } else {
        s
    }
}

/// `s` without its leading and trailing white space.
pub open spec fn trim(s: Seq<char>) -> Seq<char> {
    trim_end(trim_start(s))
}

/// Whether `s` neither starts nor ends with white space.
pub open spec fn is_trimmed(s: Seq<char>) -> bool {
    s.len() > 0 ==> !white_space(s[0]) && !white_space(s.last())
}

/// The characters of `text`, in order.
pub fn chars_of(text: &str) -> (chars: Vec<char>)
    ensures
        chars@ == text@,
{
    let mut chars: Vec<char> = Vec::new();
    let mut rest = text.chars();
    loop
        invariant
            rest.obeys_prophetic_iter_laws(),
            rest.decrease() is Some,
            chars@ + rest.remaining() == text@,
        ensures
            chars@ == text@,
        decreases rest.decrease()->0,
    {
        match rest.next() {
            Some(c) => {
                chars.push(c);
            },
            None => {
                assert(chars@ + rest.remaining() =~= chars@);
                break ;
            },
        }
    }
    chars
}

/// Collects `chars` into a `String` with `String::from_iter`: the string
/// holds exactly these characters, in order.
#[verifier::external_body]
pub(crate) fn string_of(chars: &[char]) -> (s: String)
    ensures
        s@ == chars@,
{
    String::from_iter(chars)
}

/// A half-open range of positions in a text.
#[derive(Debug, Clone, Copy, PartialEq, Eq, Structural)]
pub struct Span {
    pub start: usize,
    pub end: usize,
}

impl Span {
    /// Whether the span lies within a text of `len` characters.
    pub open spec fn within(self, len: nat) -> bool {
        self.start <= self.end <= len
    }

    /// The part of `text` that the span covers.
    pub open spec fn of(self, text: Seq<char>) -> Seq<char> {
        text.subrange(self.start as int, self.end as int)
    }
}

/// Leading white space is exactly the longest all-white prefix: where the
/// first `k` characters of `s` are white space and the next one, if any, is
/// not, trimming the start drops those `k`.
pub proof fn lemma_trim_start_drops(s: Seq<char>, k: int)
    requires
        0 <= k <= s.len(),
        forall|j: int| 0 <= j < k ==> white_space(#[trigger] s[j]),
        k < s.len() ==> !white_space(s[k]),
    ensures
        trim_start(s) == s.subrange(k, s.len() as int),
    decreases k,
{
    if k == 0 {
        assert(s.subrange(0, s.len() as int) =~= s);
    } else {
        let rest = s.drop_first();
        assert forall|j: int| 0 <= j < k - 1 implies white_space(#[trigger] rest[j]) by {
            assert(rest[j] == s[j + 1]);
        }
        lemma_trim_start_drops(rest, k - 1);
        assert(rest.subrange(k - 1, rest.len() as int) =~= s.subrange(k, s.len() as int));
    }
}

/// Trailing white space is exactly the longest all-white suffix: where the
/// characters of `s` from `k` on are white space and the one before, if any,
/// is not, trimming the end keeps the first `k`.
pub proof fn lemma_trim_end_keeps(s: Seq<char>, k: int)
    requires
        0 <= k <= s.len(),
        forall|j: int| k <= j < s.len() ==> white_space(#[trigger] s[j]),
        k > 0 ==> !white_space(s[k - 1]),
    ensures
        trim_end(s) == s.subrange(0, k),
    decreases s.len() - k,
{
    if k == s.len() {
        assert(s.subrange(0, k) =~= s);
    } else {
        let rest = s.drop_last();
        assert forall|j: int| k <= j < rest.len() implies white_space(#[trigger] rest[j]) by {
            assert(rest[j] == s[j]);
        }
        lemma_trim_end_keeps(rest, k);
        assert(rest.subrange(0, k) =~= s.subrange(0, k));
    }
}

/// The span that is left of `text[from..to]` once its leading and trailing
/// white space is removed.
pub fn trim_span(text: &[char], from: usize, to: usize) -> (kept: Span)
    requires
        from <= to <= text@.len(),
    ensures
        from <= kept.start <= kept.end <= to,
        kept.of(text@) == trim(text@.subrange(from as int, to as int)),
        forall|j: int| from <= j < kept.start ==> white_space(#[trigger] text@[j]),
        forall|j: int| kept.end <= j < to ==> white_space(#[trigger] text@[j]),
        kept.start < to ==> !white_space(text@[kept.start as int]),
        kept.start < kept.end ==> !white_space(text@[kept.end - 1]),
{
    let mut lo: usize = from;
    while lo < to && is_whitespace(text[lo])
        invariant
            from <= lo <= to <= text@.len(),
            forall|j: int| from <= j < lo ==> white_space(#[trigger] text@[j]),
        decreases to - lo,
    {
        lo += 1;
    }
    let mut hi: usize = to;
    while hi > lo && is_whitespace(text[hi - 1])
        invariant
            lo <= hi <= to <= text@.len(),
            forall|j: int| hi <= j < to ==> white_space(#[trigger] text@[j]),
        decreases hi - lo,
    {
        hi -= 1;
    }
    proof {
        let whole = text@.subrange(from as int, to as int);
        lemma_trim_start_drops(whole, lo - from);
        let tail = text@.subrange(lo as int, to as int);
        assert(whole.subrange(lo - from, whole.len() as int) =~= tail);
        lemma_trim_end_keeps(tail, hi - lo);
        assert(tail.subrange(0, hi - lo) =~= text@.subrange(lo as int, hi as int));
    }
    Span { start: lo, end: hi }
}

/// What is left after trimming the start is the text from some position on,
/// and does not start with white space.
pub proof fn lemma_trim_start_is_suffix(s: Seq<char>) -> (k: int)
    ensures
        0 <= k <= s.len(),
        trim_start(s) == s.subrange(k, s.len() as int),
        forall|j: int| 0 <= j < k ==> white_space(#[trigger] s[j]),
        k < s.len() ==> !white_space(s[k]),
    decreases s.len(),
{
    if s.len() > 0 && white_space(s[0]) {
        let rest = s.drop_first();
        let k = lemma_trim_start_is_suffix(rest);
        assert(rest.subrange(k, rest.len() as int) =~= s.subrange(k + 1, s.len() as int));
        assert forall|j: int| 0 <= j < k + 1 implies white_space(#[trigger] s[j]) by {
            if j > 0 {
                assert(s[j] == rest[j - 1]);
            }
        }
        k + 1
    } else {
        assert(s.subrange(0, s.len() as int) =~= s);
        0
    }
}

/// What is left after trimming the end is the text up to some position, and
/// does not end with white space.
pub proof fn lemma_trim_end_is_prefix(s: Seq<char>) -> (k: int)
    ensures
        0 <= k <= s.len(),
        trim_end(s) == s.subrange(0, k),
        forall|j: int| k <= j < s.len() ==> white_space(#[trigger] s[j]),
        k > 0 ==> !white_space(s[k - 1]),
    decreases s.len(),
{
    if s.len() > 0 && white_space(s.last()) {
        let rest = s.drop_last();
        let k = lemma_trim_end_is_prefix(rest);
        assert(rest.subrange(0, k) =~= s.subrange(0, k));
        assert forall|j: int| k <= j < s.len() implies white_space(#[trigger] s[j]) by {
            if j < rest.len() {
                assert(s[j] == rest[j]);
            }
        }
        k
    } else {
        assert(s.subrange(0, s.len() as int) =~= s);
        s.len() as int
    }
}

/// A trimmed text neither starts nor ends with white space, and is a part of
/// the text it was trimmed from.
pub proof fn lemma_trim_is_trimmed(s: Seq<char>) -> (kept: (int, int))
    ensures
        0 <= kept.0 <= kept.1 <= s.len(),
        trim(s) == s.subrange(kept.0, kept.1),
        is_trimmed(trim(s)),
{
    let lo = lemma_trim_start_is_suffix(s);
    let tail = trim_start(s);
    let k = lemma_trim_end_is_prefix(tail);
    assert(tail.subrange(0, k) =~= s.subrange(lo, lo + k));
    if k > 0 {
        assert(trim(s)[0] == s[lo]);
        assert(trim(s).last() == tail[k - 1]);
    }
    (lo, lo + k)
}

/// It makes no difference which end is trimmed first.
pub proof fn lemma_trim_either_end_first(s: Seq<char>)
    ensures
        trim_start(trim_end(s)) == trim_end(trim_start(s)),
{
    let k = lemma_trim_start_is_suffix(s);
    let m = lemma_trim_end_is_prefix(s);
    let tail = s.subrange(k, s.len() as int);
    let head = s.subrange(0, m);
    if k < s.len() {
        assert(k < m) by {
            if m <= k {
                assert(white_space(s[k]));
            }
        }
        lemma_trim_end_keeps(tail, m - k);
        lemma_trim_start_drops(head, k);
        assert(tail.subrange(0, m - k) =~= head.subrange(k, m));
    } else {
        assert(m == 0) by {
            if m > 0 {
                assert(white_space(s[m - 1]));
            }
        }
        assert(tail =~= head);
    }
}

/// Trimming changes nothing in a text that neither starts nor ends with
/// white space; so trimming twice is trimming once.
pub proof fn lemma_trim_settles(s: Seq<char>)
    ensures
        is_trimmed(s) ==> trim(s) == s,
        trim(trim(s)) == trim(s),
{
    lemma_trim_is_trimmed(s);
}

} // verus!
