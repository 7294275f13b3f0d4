//! The pattern matcher: a compiled search pattern, the names its contracts
//! speak through, and the trusted calls into the regex engine.

use vstd::prelude::*;

verus! {

/// Whether the regex engine accepts a pattern text. Compilation succeeds
/// or fails on the text alone, so this is a fixed property of it.
pub uninterp spec fn pattern_ok(src: Seq<char>) -> bool;

/// The match spans that the compiled form of pattern `src` yields on
/// haystack `hay`: its successive non-overlapping matches, as half-open
/// byte ranges in ascending order. A fixed function of the pattern text
/// and the haystack.
pub uninterp spec fn match_spans(src: Seq<char>, hay: Seq<u8>) -> Seq<(usize, usize)>;

/// What the matcher guarantees of a span sequence over a haystack of
/// length `len`: each span is a half-open range inside the haystack, and
/// the spans come in ascending order without overlap.
pub open spec fn spans_wf(spans: Seq<(usize, usize)>, len: int) -> bool {
    &&& forall|i: int|
        0 <= i < spans.len() ==> (#[trigger] spans[i]).0 <= spans[i].1 && spans[i].1 <= len
    &&& forall|i: int, j: int|
        0 <= i < j < spans.len() ==> (#[trigger] spans[i]).1 <= (#[trigger] spans[j]).0
}

/// The ASCII lowercase image of one character: `A` through `Z` shift to
/// `a` through `z`, every other character stays itself.
pub open spec fn lower_char(c: char) -> char {
    if 65 <= c as u32 && c as u32 <= 90 {
        ((c as u32) + 32) as char
    } else {
        c
    }
}

/// The ASCII lowercase image of a character sequence.
pub open spec fn lower_chars(s: Seq<char>) -> Seq<char> {
    s.map_values(|c: char| lower_char(c))
}

/// Relies on str::to_ascii_lowercase: each ASCII uppercase letter is
/// replaced by its lowercase counterpart and every other character is
/// kept, character for character.
#[verifier::external_body]
pub(crate) fn lower_str(s: &str) -> (r: String)
    ensures
        r@ == lower_chars(s@),
{
    s.to_ascii_lowercase()
}

#[verifier::external_type_specification]
#[verifier::external_body]
pub struct ExRegex(regex::bytes::Regex);

/// A compiled search pattern together with the text it was compiled from.
/// `source` is what the contracts speak about; `re` is the compiled form
/// of exactly that text, paired with it at construction and never swapped.
pub struct Pattern {
    re: regex::bytes::Regex,
    source: String,
}

impl Pattern {
    /// The pattern text this value was compiled from.
    pub closed spec fn src(&self) -> Seq<char> {
        self.source@
    }

    /// Relies on regex::bytes::Regex::new: compilation succeeds or fails
    /// on the pattern text alone, and the compiled value then matches per
    /// that text. A rejected pattern is reported as the error's rendering.
    #[verifier::external_body]
    pub(crate) fn compile(src: &str) -> (r: Result<Pattern, String>)
        ensures
            r is Ok <==> pattern_ok(src@),
            r matches Ok(p) ==> p.src() == src@,
    {
        match regex::bytes::Regex::new(src) {
            Ok(re) => Ok(Pattern { re, source: src.to_owned() }),
            Err(e) => Err(e.to_string()),
        }
    }

    /// Relies on regex::bytes::Regex::is_match: true if and only if the
    /// pattern matches somewhere in the haystack, which per find_iter is
    /// exactly when the span sequence is non-empty.
    #[verifier::external_body]
    pub(crate) fn is_match(&self, hay: &[u8]) -> (r: bool)
        ensures
            r == (match_spans(self.src(), hay@).len() > 0),
    {
        self.re.is_match(hay)
    }

    /// Relies on regex::bytes::Regex::find_iter and Match::{start, end}:
    /// the successive non-overlapping matches, in ascending order, each a
    /// half-open byte range within the haystack.
    #[verifier::external_body]
    pub(crate) fn find_spans(&self, hay: &[u8]) -> (r: Vec<(usize, usize)>)
        ensures
            r@ == match_spans(self.src(), hay@),
            spans_wf(r@, hay@.len() as int),
    {
        self.re.find_iter(hay).map(|m| (m.start(), m.end())).collect()
    }
}

impl PartialEq for Pattern {
    fn eq(&self, other: &Self) -> bool {
        self.source == other.source
    }
}

impl Eq for Pattern {

}

impl vstd::std_specs::cmp::PartialEqSpecImpl for Pattern {
    open spec fn obeys_eq_spec() -> bool {
        true
    }

    open spec fn eq_spec(&self, other: &Self) -> bool {
        self.src() == other.src()
    }
}

} // verus!
