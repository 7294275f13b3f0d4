//! The file scanner: walks the records read from one file in order,
//! numbers every physical line, builds each line's comparison copy, and
//! collects the formatted rows.

use vstd::prelude::*;

use crate::config::effective_source;
use crate::config::RunParameters;
use crate::format::formatted_body;
use crate::format::highlight_matches;
use crate::pattern::lower_chars;
use crate::pattern::match_spans;
use crate::text::ascii_lower;
use crate::text::dec_digits;
use crate::text::lower_bytes;
use crate::text::push_decimal;

verus! {

/// One record handed over by whatever read the file: the bytes of a line
/// with its terminator stripped, or the mark of a line that could not be
/// read or decoded. A failed line still counts toward the numbering.
pub enum LineOutcome {
    Text(Vec<u8>),
    Unreadable,
}

/// The comparison copy of a line under configuration `p`: folded to ASCII
/// lowercase when matching case-insensitively, the line itself otherwise.
pub open spec fn comparison_of(line: Seq<u8>, p: RunParameters) -> Seq<u8> {
    if p.case_insensitive {
        lower_bytes(line)
    } else {
        line
    }
}

/// The bytes of `"Line "`.
pub open spec fn line_tag() -> Seq<u8> {
    seq![76u8, 105u8, 110u8, 101u8, 32u8]
}

/// The bytes of `": "`.
pub open spec fn colon_space() -> Seq<u8> {
    seq![58u8, 32u8]
}

/// The `"Line N: "` prefix of the row numbered `n` when line numbers are
/// shown, and nothing otherwise.
pub open spec fn number_prefix(n: nat, show: bool) -> Seq<u8> {
    if show {
        line_tag() + dec_digits(n) + colon_space()
    } else {
        Seq::<u8>::empty()
    }
}

/// The output row for the line numbered `n`, when it yields one: the
/// formatted body under the optional line-number prefix. A line the
/// pattern does not match is kept, unhighlighted, only when every line is
/// to be printed.
pub open spec fn line_output(line: Seq<u8>, n: nat, p: RunParameters) -> Option<Seq<u8>> {
    match formatted_body(line, comparison_of(line, p), p) {
        Some(b) => Some(number_prefix(n, p.line_numbers) + b),
        None => if p.all_text {
            Some(number_prefix(n, p.line_numbers) + line)
        } else {
            None
        },
    }
}

/// The output row for one read record: an unreadable line yields none,
/// but still occupies its number.
pub open spec fn record_output(rec: LineOutcome, n: nat, p: RunParameters) -> Option<Seq<u8>> {
    match rec {
        LineOutcome::Text(v) => line_output(v@, n, p),
        LineOutcome::Unreadable => None,
    }
}

/// A row wrapped as the sequence it contributes to the scan.
pub open spec fn row_seq(row: Option<Seq<u8>>) -> Seq<Seq<u8>> {
    match row {
        Some(r) => seq![r],
        None => Seq::<Seq<u8>>::empty(),
    }
}

/// The scan of `lines` with the first record numbered `n`: the rows the
/// records yield, in reading order, each record counted toward the
/// numbering whether or not it yields a row.
pub open spec fn scan_from(lines: Seq<LineOutcome>, n: nat, p: RunParameters) -> Seq<Seq<u8>>
    decreases lines.len(),
{
    if lines.len() == 0 {
        Seq::<Seq<u8>>::empty()
    } else {
        row_seq(record_output(lines[0], n, p)) + scan_from(lines.drop_first(), n + 1, p)
    }
}

/// Scanning one more record at the end appends exactly that record's
/// contribution, numbered by its physical position.
proof fn lemma_scan_snoc(s: Seq<LineOutcome>, x: LineOutcome, n: nat, p: RunParameters)
    ensures
        scan_from(s.push(x), n, p) == scan_from(s, n, p) + row_seq(
            record_output(x, n + s.len(), p),
        ),
    decreases s.len(),
{
    let t = s.push(x);
    if s.len() == 0 {
        assert(t[0] == x);
        assert(t.drop_first() =~= Seq::<LineOutcome>::empty());
        assert(scan_from(t.drop_first(), n + 1, p) =~= Seq::<Seq<u8>>::empty());
        assert(scan_from(t, n, p) =~= row_seq(record_output(x, n, p)));
        assert(scan_from(s, n, p) =~= Seq::<Seq<u8>>::empty());
        assert(scan_from(s, n, p) + row_seq(record_output(x, n, p)) =~= row_seq(
            record_output(x, n, p),
        ));
    } else {
        lemma_scan_snoc(s.drop_first(), x, n + 1, p);
        assert(t[0] == s[0]);
        assert(t.drop_first() =~= s.drop_first().push(x));
        assert(scan_from(t, n, p) == row_seq(record_output(s[0], n, p)) + scan_from(
            s.drop_first().push(x),
            n + 1,
            p,
        ));
        assert(scan_from(s.drop_first().push(x), n + 1, p) == scan_from(s.drop_first(), n + 1, p)
            + row_seq(record_output(x, n + s.len(), p)));
        assert(scan_from(s, n, p) == row_seq(record_output(s[0], n, p)) + scan_from(
            s.drop_first(),
            n + 1,
            p,
        ));
        assert(row_seq(record_output(s[0], n, p)) + (scan_from(s.drop_first(), n + 1, p) + row_seq(
            record_output(x, n + s.len(), p),
        )) =~= (row_seq(record_output(s[0], n, p)) + scan_from(s.drop_first(), n + 1, p)) + row_seq(
            record_output(x, n + s.len(), p),
        ));
    }
}

/// A line the pattern does not match is excluded from the output
/// entirely, unless every line is to be printed; then it appears as
/// itself, unhighlighted, under only the line-number prefix.
pub proof fn lemma_unmatched_line(line: Seq<u8>, n: nat, p: RunParameters)
    ensures
        match_spans(p.query.src(), comparison_of(line, p)).len() == 0 ==> line_output(line, n, p)
            == (if p.all_text {
            Some(number_prefix(n, p.line_numbers) + line)
        } else {
            None::<Seq<u8>>
        }),
{
}

/// Case-insensitive matching is matching lowered text against a lowered
/// pattern: under a configuration whose pattern was compiled from the
/// ASCII-lowercase of the query, a line is matched through its
/// ASCII-lowercase comparison copy, and inclusion is decided by the
/// spans the lowered pattern finds there. The displayed text, when
/// highlighting is off, is the original line under its prefix, casing
/// untouched; the highlighted rendering slices from the original line
/// only (its faithfulness is the marker-stripping law).
pub proof fn lemma_case_insensitive(query: Seq<char>, line: Seq<u8>, n: nat, p: RunParameters)
    ensures
        p.case_insensitive ==> comparison_of(line, p) == lower_bytes(line),
        (p.case_insensitive && p.query.src() == effective_source(query, true)) ==> (line_output(
            line,
            n,
            p,
        ) is Some <==> (match_spans(lower_chars(query), lower_bytes(line)).len() > 0
            || p.all_text)),
        (p.case_insensitive && p.query.src() == effective_source(query, true) && !p.highlight
            && match_spans(lower_chars(query), lower_bytes(line)).len() > 0) ==> line_output(
            line,
            n,
            p,
        ) == Some(number_prefix(n, p.line_numbers) + line),
{
}

/// Line numbering is 1-based and physical: splitting a scan after `i`
/// records resumes the numbering at `n + i`, whether or not any of those
/// records produced an output row.
pub proof fn lemma_scan_split(lines: Seq<LineOutcome>, n: nat, i: nat, p: RunParameters)
    requires
        i <= lines.len(),
    ensures
        scan_from(lines, n, p) == scan_from(lines.take(i as int), n, p) + scan_from(
            lines.skip(i as int),
            n + i,
            p,
        ),
    decreases i,
{
    if i == 0 {
        assert(lines.take(0) =~= Seq::<LineOutcome>::empty());
        assert(lines.skip(0) =~= lines);
        assert(scan_from(lines.take(0), n, p) + scan_from(lines, n, p) =~= scan_from(lines, n, p));
    } else {
        lemma_scan_split(lines.drop_first(), n + 1, (i - 1) as nat, p);
        assert(lines.take(i as int)[0] == lines[0]);
        assert(lines.take(i as int).drop_first() =~= lines.drop_first().take(i - 1));
        assert(lines.skip(i as int) =~= lines.drop_first().skip(i - 1));
        assert(scan_from(lines.take(i as int), n, p) == row_seq(record_output(lines[0], n, p))
            + scan_from(lines.drop_first().take(i - 1), n + 1, p));
        assert(scan_from(lines, n, p) == row_seq(record_output(lines[0], n, p)) + scan_from(
            lines.drop_first(),
            n + 1,
            p,
        ));
        assert(row_seq(record_output(lines[0], n, p)) + (scan_from(
            lines.drop_first().take(i - 1),
            n + 1,
            p,
        ) + scan_from(lines.drop_first().skip(i - 1), n + i, p)) =~= (row_seq(
            record_output(lines[0], n, p),
        ) + scan_from(lines.drop_first().take(i - 1), n + 1, p)) + scan_from(
            lines.drop_first().skip(i - 1),
            n + i,
            p,
        ));
    }
}

/// Prepends the `"Line N: "` prefix to a finished row body when line
/// numbers are shown; hands the body back untouched otherwise.
fn prefixed(n: usize, p: &RunParameters, body: Vec<u8>) -> (r: Vec<u8>)
    ensures
        r@ == number_prefix(n as nat, p.line_numbers) + body@,
{
    if p.line_numbers {
        let mut out: Vec<u8> = Vec::new();
        out.push(76);
        out.push(105);
        out.push(110);
        out.push(101);
        out.push(32);
        proof {
            assert(out@ =~= line_tag());
        }
        push_decimal(&mut out, n);
        out.push(58);
        out.push(32);
        let mut tail = body;
        out.append(&mut tail);
        proof {
            assert(out@ =~= number_prefix(n as nat, p.line_numbers) + body@);
        }
        out
    } else {
        let r = body;
        proof {
            assert(r@ =~= number_prefix(n as nat, p.line_numbers) + r@);
        }
        r
    }
}

/// Scans the records read from one file, in order: numbers each physical
/// line from 1 up, builds the comparison copy, formats the line, and
/// collects the rows that qualify for output.
pub fn process_lines(lines: &Vec<LineOutcome>, run_parameters: &RunParameters) -> (r: Vec<Vec<u8>>)
    ensures
        r.deep_view() == scan_from(lines@, 1, *run_parameters),
{
    let mut out: Vec<Vec<u8>> = Vec::new();
    let mut i: usize = 0;
    proof {
        assert(lines@.take(0) =~= Seq::<LineOutcome>::empty());
        assert(out.deep_view() =~= scan_from(lines@.take(0), 1, *run_parameters));
    }
    while i < lines.len()
        invariant
            i <= lines@.len(),
            out.deep_view() == scan_from(lines@.take(i as int), 1, *run_parameters),
        decreases lines@.len() - i,
    {
        let ghost prefix_dv = out.deep_view();
        let ghost row = record_output(lines@[i as int], (i + 1) as nat, *run_parameters);
        proof {
            lemma_scan_snoc(lines@.take(i as int), lines@[i as int], 1, *run_parameters);
            assert(lines@.take(i + 1) =~= lines@.take(i as int).push(lines@[i as int]));
        }
        match &lines[i] {
            LineOutcome::Unreadable => {
                proof {
                    assert(out.deep_view() =~= prefix_dv + row_seq(row));
                }
            },
            LineOutcome::Text(content) => {
                let number = i + 1;
                let updated = if run_parameters.case_insensitive {
                    ascii_lower(content)
                } else {
                    content.clone()
                };
                proof {
                    assert(updated@ =~= comparison_of(content@, *run_parameters));
                }
                match highlight_matches(content, &updated, run_parameters) {
                    Some(b) => {
                        let ghost bv = b@;
                        proof {
                            assert(b.deep_view() =~= bv);
                            assert(row == Some(
                                number_prefix(number as nat, run_parameters.line_numbers) + bv,
                            ));
                        }
                        let rowv = prefixed(number, run_parameters, b);
                        let ghost rv = rowv@;
                        out.push(rowv);
                        proof {
                            assert(out.deep_view() =~~= prefix_dv.push(rv));
                            assert(prefix_dv.push(rv) =~= prefix_dv + row_seq(row));
                        }
                    },
                    None => {
                        if run_parameters.all_text {
                            let shown = content.clone();
                            proof {
                                assert(shown@ =~= content@);
                                assert(row == Some(
                                    number_prefix(number as nat, run_parameters.line_numbers)
                                        + content@,
                                ));
                            }
                            let rowv = prefixed(number, run_parameters, shown);
                            let ghost rv = rowv@;
                            out.push(rowv);
                            proof {
                                assert(out.deep_view() =~~= prefix_dv.push(rv));
                                assert(prefix_dv.push(rv) =~= prefix_dv + row_seq(row));
                            }
                        } else {
                            proof {
                                assert(row is None);
                                assert(out.deep_view() =~= prefix_dv + row_seq(row));
                            }
                        }
                    },
                }
            },
        }
        i += 1;
    }
    proof {
        assert(lines@.take(lines@.len() as int) =~= lines@);
    }
    out
}

} // verus!
