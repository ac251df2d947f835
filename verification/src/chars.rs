use vstd::prelude::*;

verus! {

/// Whether a `char` has the Unicode `White_Space` property: the ASCII
/// controls U+0009..=U+000D, the space U+0020, U+0085, U+00A0, U+1680,
/// U+2000..=U+200A, U+2028, U+2029, U+202F, U+205F and U+3000.
pub open spec fn spec_is_whitespace(c: char) -> bool {
    ||| '\u{9}' <= c && c <= '\u{d}'
    ||| c == ' '
    ||| c == '\u{85}'
    ||| c == '\u{a0}'
    ||| c == '\u{1680}'
    ||| '\u{2000}' <= c && c <= '\u{200a}'
    ||| c == '\u{2028}'
    ||| c == '\u{2029}'
    ||| c == '\u{202f}'
    ||| c == '\u{205f}'
    ||| c == '\u{3000}'
}

/// Returns `true` if a `char` has the Unicode `White_Space` property (the
/// property that `char::is_whitespace` reports).
pub fn is_whitespace(c: char) -> (r: bool)
    ensures
        r == spec_is_whitespace(c),
{
    ('\u{9}' <= c && c <= '\u{d}') || c == ' ' || c == '\u{85}' || c == '\u{a0}'
        || c == '\u{1680}' || ('\u{2000}' <= c && c <= '\u{200a}') || c == '\u{2028}'
        || c == '\u{2029}' || c == '\u{202f}' || c == '\u{205f}' || c == '\u{3000}'
}

/// Whether a `char` is an ASCII decimal digit (`'0'..='9'`).
pub open spec fn spec_is_ascii_digit(c: char) -> bool {
    '0' <= c && c <= '9'
}

/// Whether a `char` is an ASCII letter.
pub open spec fn spec_is_ascii_alphabetic(c: char) -> bool {
    ('a' <= c && c <= 'z') || ('A' <= c && c <= 'Z')
}

/// Returns `true` if a `char` is an ASCII decimal digit.
pub fn is_ascii_digit(c: char) -> (r: bool)
    ensures
        r == spec_is_ascii_digit(c),
{
    '0' <= c && c <= '9'
}

/// Returns `true` if a `char` is an ASCII letter.
pub fn is_ascii_alphabetic(c: char) -> (r: bool)
    ensures
        r == spec_is_ascii_alphabetic(c),
{
    ('a' <= c && c <= 'z') || ('A' <= c && c <= 'Z')
}

/// The first offset at or after `p` whose `char` does not satisfy `pred`, or
/// the length of `s` if there is none.
pub open spec fn scan_while(s: Seq<char>, p: int, pred: spec_fn(char) -> bool) -> int
    decreases s.len() - p,
{
    if 0 <= p < s.len() && pred(s[p]) {
        scan_while(s, p + 1, pred)
    } else {
        p
    }
}

/// Characterizes [`scan_while`] by the offset where it stops.
pub proof fn lemma_scan_while(s: Seq<char>, p: int, q: int, pred: spec_fn(char) -> bool)
    requires
        0 <= p <= q <= s.len(),
        forall|i: int| p <= i < q ==> pred(#[trigger] s[i]),
        q == s.len() || !pred(s[q]),
    ensures
        scan_while(s, p, pred) == q,
    decreases q - p,
{
    if p < q {
        lemma_scan_while(s, p + 1, q, pred);
    }
}

/// [`scan_while`] stays between its start and the end of the sequence.
pub proof fn lemma_scan_while_bounds(s: Seq<char>, p: int, pred: spec_fn(char) -> bool)
    requires
        0 <= p <= s.len(),
    ensures
        p <= scan_while(s, p, pred) <= s.len(),
    decreases s.len() - p,
{
    if p < s.len() && pred(s[p]) {
        lemma_scan_while_bounds(s, p + 1, pred);
    }
}

/// Every `char` that [`scan_while`] passes over satisfies the predicate.
pub proof fn lemma_scan_while_all(s: Seq<char>, p: int, pred: spec_fn(char) -> bool)
    requires
        0 <= p <= s.len(),
    ensures
        forall|i: int| p <= i < scan_while(s, p, pred) ==> pred(#[trigger] s[i]),
    decreases s.len() - p,
{
    if p < s.len() && pred(s[p]) {
        lemma_scan_while_all(s, p + 1, pred);
    }
}

} // verus!
