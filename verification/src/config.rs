//! The resolved run configuration: the compiled pattern plus the
//! behavioral flags, fixed once at construction and read-only afterwards.

use vstd::prelude::*;

use crate::pattern::lower_chars;
use crate::pattern::lower_str;
use crate::pattern::pattern_ok;
use crate::pattern::Pattern;

verus! {

/// A pattern the engine rejected, with the problem rendered as text.
#[derive(Debug)]
pub struct PatternError {
    pub message: String,
}

/// The immutable configuration of one run. When `all_text` is set,
/// `highlight` is forced true at construction.
pub struct RunParameters {
    pub query: Pattern,
    pub case_insensitive: bool,
    pub line_numbers: bool,
    pub highlight: bool,
    pub all_text: bool,
}

/// The pattern text actually handed to the engine: folded to ASCII
/// lowercase when matching case-insensitively, untouched otherwise.
pub open spec fn effective_source(query: Seq<char>, ignore_case: bool) -> Seq<char> {
    if ignore_case {
        lower_chars(query)
    } else {
        query
    }
}

impl RunParameters {
    /// Every configuration this module hands out keeps the construction
    /// rule: printing all lines forces highlighting on.
    pub open spec fn wf(&self) -> bool {
        self.all_text ==> self.highlight
    }

    /// Resolves the run configuration from the user's pattern and flags:
    /// folds the pattern when case-insensitive, compiles it, and forces
    /// highlighting on when every line is to be printed. Fails exactly on
    /// a pattern the engine rejects.
    pub fn from_config(
        query: &str,
        ignore_case: bool,
        line_numbers: bool,
        highlight: bool,
        all_text: bool,
    ) -> (r: Result<RunParameters, PatternError>)
        ensures
            r is Ok <==> pattern_ok(effective_source(query@, ignore_case)),
            r matches Ok(p) ==> {
                &&& p.query.src() == effective_source(query@, ignore_case)
                &&& p.case_insensitive == ignore_case
                &&& p.line_numbers == line_numbers
                &&& p.highlight == (all_text || highlight)
                &&& p.all_text == all_text
                &&& p.wf()
            },
    {
        let source: String = if ignore_case {
            lower_str(query)
        } else {
            query.to_owned()
        };
        match Pattern::compile(source.as_str()) {
            Ok(q) => Ok(
                RunParameters {
                    query: q,
                    case_insensitive: ignore_case,
                    line_numbers,
                    highlight: all_text || highlight,
                    all_text,
                },
            ),
            Err(message) => Err(PatternError { message }),
        }
    }
}

impl PartialEq for RunParameters {
    fn eq(&self, other: &Self) -> bool {
        self.query == other.query && self.case_insensitive == other.case_insensitive
            && self.line_numbers == other.line_numbers && self.highlight == other.highlight
            && self.all_text == other.all_text
    }
}

impl Eq for RunParameters {

}

impl vstd::std_specs::cmp::PartialEqSpecImpl for RunParameters {
    open spec fn obeys_eq_spec() -> bool {
        true
    }

    open spec fn eq_spec(&self, other: &Self) -> bool {
        &&& self.query.src() == other.query.src()
        &&& self.case_insensitive == other.case_insensitive
        &&& self.line_numbers == other.line_numbers
        &&& self.highlight == other.highlight
        &&& self.all_text == other.all_text
    }
}

} // verus!
