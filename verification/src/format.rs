//! The line formatter: renders one line under the run configuration,
//! bracketing every matched span of the original text with the fixed
//! highlight marker pair.

use vstd::prelude::*;

use crate::config::RunParameters;
use crate::pattern::match_spans;
use crate::pattern::spans_wf;
use crate::text::lower_bytes;
use crate::text::push_range;

verus! {

/// The fixed control sequence that opens a highlighted span: it switches
/// the terminal to a distinct background rendering.
pub open spec fn start_marker() -> Seq<u8> {
    seq![27u8, 91u8, 49u8, 48u8, 48u8, 109u8]
}

/// The fixed control sequence that closes a highlighted span: it resets
/// the terminal's formatting.
pub open spec fn end_marker() -> Seq<u8> {
    seq![27u8, 91u8, 48u8, 109u8]
}

/// Appends the opening highlight marker to `out`.
fn push_start_marker(out: &mut Vec<u8>)
    ensures
        final(out)@ == old(out)@ + start_marker(),
{
    out.push(27);
    out.push(91);
    out.push(49);
    out.push(48);
    out.push(48);
    out.push(109);
    proof {
        assert(out@ =~= old(out)@ + start_marker());
    }
}

/// Appends the closing highlight marker to `out`.
fn push_end_marker(out: &mut Vec<u8>)
    ensures
        final(out)@ == old(out)@ + end_marker(),
{
    out.push(27);
    out.push(91);
    out.push(48);
    out.push(109);
    proof {
        assert(out@ =~= old(out)@ + end_marker());
    }
}

/// The rendered form of `line` from cursor `pos` on: the unmatched
/// stretches of the original line verbatim, each matched span bracketed
/// by the marker pair.
pub open spec fn highlight_from(line: Seq<u8>, spans: Seq<(usize, usize)>, pos: int) -> Seq<u8>
    decreases spans.len(),
{
    if spans.len() == 0 {
        line.subrange(pos, line.len() as int)
    } else {
        line.subrange(pos, spans[0].0 as int) + start_marker() + line.subrange(
            spans[0].0 as int,
            spans[0].1 as int,
        ) + end_marker() + highlight_from(line, spans.drop_first(), spans[0].1 as int)
    }
}

/// What the formatter yields for one line, before the line-number prefix:
/// nothing when the pattern does not match the comparison copy; the
/// original line untouched when highlighting is off; otherwise the
/// original line with every matched span bracketed by the marker pair.
pub open spec fn formatted_body(line: Seq<u8>, upd: Seq<u8>, p: RunParameters) -> Option<Seq<u8>> {
    let spans = match_spans(p.query.src(), upd);
    if spans.len() == 0 {
        None
    } else if !p.highlight {
        Some(line)
    } else {
        Some(highlight_from(line, spans, 0))
    }
}

/// Whether `s` begins with `p`.
pub open spec fn starts_with(s: Seq<u8>, p: Seq<u8>) -> bool {
    s.len() >= p.len() && s.take(p.len() as int) == p
}

/// `s` with every occurrence of the two highlight markers removed.
pub open spec fn strip_markers(s: Seq<u8>) -> Seq<u8>
    decreases s.len(),
{
    if s.len() == 0 {
        s
    } else if starts_with(s, start_marker()) {
        strip_markers(s.skip(start_marker().len() as int))
    } else if starts_with(s, end_marker()) {
        strip_markers(s.skip(end_marker().len() as int))
    } else {
        seq![s[0]] + strip_markers(s.skip(1))
    }
}

/// Stripping walks over a stretch that holds no escape byte unchanged:
/// no marker can begin inside it.
proof fn lemma_strip_over(a: Seq<u8>, b: Seq<u8>)
    requires
        forall|i: int| 0 <= i < a.len() ==> a[i] != 27,
    ensures
        strip_markers(a + b) == a + strip_markers(b),
    decreases a.len(),
{
    if a.len() == 0 {
        assert(a + b =~= b);
        assert(a + strip_markers(b) =~= strip_markers(b));
    } else {
        let t = a + b;
        assert(t[0] == a[0]);
        assert(start_marker()[0] == 27);
        assert(end_marker()[0] == 27);
        if starts_with(t, start_marker()) {
            assert(t.take(6)[0] == t[0]);
            assert(false);
        }
        if starts_with(t, end_marker()) {
            assert(t.take(4)[0] == t[0]);
            assert(false);
        }
        lemma_strip_over(a.skip(1), b);
        assert(t.skip(1) =~= a.skip(1) + b);
        assert(seq![a[0]] + (a.skip(1) + strip_markers(b)) =~= a + strip_markers(b));
    }
}

/// Stripping removes a leading opening marker.
proof fn lemma_strip_start(b: Seq<u8>)
    ensures
        strip_markers(start_marker() + b) == strip_markers(b),
{
    let t = start_marker() + b;
    assert(t.take(6) =~= start_marker());
    assert(starts_with(t, start_marker()));
    assert(t.skip(6) =~= b);
}

/// Stripping removes a leading closing marker.
proof fn lemma_strip_end(b: Seq<u8>)
    ensures
        strip_markers(end_marker() + b) == strip_markers(b),
{
    let t = end_marker() + b;
    if starts_with(t, start_marker()) {
        assert(t.take(6)[2] == t[2]);
        assert(t[2] == end_marker()[2]);
        assert(start_marker()[2] != end_marker()[2]);
        assert(false);
    }
    assert(t.take(4) =~= end_marker());
    assert(starts_with(t, end_marker()));
    assert(t.skip(4) =~= b);
}

/// The rendering from any cursor strips back to the rest of the line.
proof fn lemma_strip_from(line: Seq<u8>, spans: Seq<(usize, usize)>, pos: int)
    requires
        spans_wf(spans, line.len() as int),
        0 <= pos <= line.len(),
        spans.len() > 0 ==> pos <= spans[0].0,
        forall|i: int| 0 <= i < line.len() ==> line[i] != 27,
    ensures
        strip_markers(highlight_from(line, spans, pos)) == line.subrange(pos, line.len() as int),
    decreases spans.len(),
{
    let len = line.len() as int;
    if spans.len() == 0 {
        lemma_strip_over(line.subrange(pos, len), Seq::<u8>::empty());
        assert(line.subrange(pos, len) + Seq::<u8>::empty() =~= line.subrange(pos, len));
        assert(line.subrange(pos, len) + strip_markers(Seq::<u8>::empty()) =~= line.subrange(
            pos,
            len,
        ));
    } else {
        let s = spans[0].0 as int;
        let e = spans[0].1 as int;
        let head = line.subrange(pos, s);
        let mid = line.subrange(s, e);
        let rest = highlight_from(line, spans.drop_first(), e);
        assert(spans.drop_first().len() > 0 ==> e <= spans.drop_first()[0].0);
        lemma_strip_from(line, spans.drop_first(), e);
        assert(highlight_from(line, spans, pos) =~= head + (start_marker() + (mid + (end_marker()
            + rest))));
        lemma_strip_over(head, start_marker() + (mid + (end_marker() + rest)));
        lemma_strip_start(mid + (end_marker() + rest));
        lemma_strip_over(mid, end_marker() + rest);
        lemma_strip_end(rest);
        assert(head + (mid + line.subrange(e, len)) =~= line.subrange(pos, len));
    }
}

/// Highlighting is faithful to the line it renders: with the two markers
/// stripped, the highlighted form of a line equals the original line,
/// byte for byte. Stated for every well-formed span sequence, over lines
/// free of the escape byte the markers begin with: a line carrying that
/// byte could itself mimic a marker and make stripping ambiguous.
pub proof fn lemma_highlight_strip(line: Seq<u8>, spans: Seq<(usize, usize)>)
    requires
        spans_wf(spans, line.len() as int),
        forall|i: int| 0 <= i < line.len() ==> line[i] != 27,
    ensures
        strip_markers(highlight_from(line, spans, 0)) == line,
{
    lemma_strip_from(line, spans, 0);
    assert(line.subrange(0, line.len() as int) =~= line);
}

/// Renders one line against the comparison copy `updated_line`: the copy
/// decides where the pattern matches, the original `line` is what gets
/// displayed and highlighted. Yields nothing when the pattern does not
/// match the copy.
pub fn highlight_matches(line: &Vec<u8>, updated_line: &Vec<u8>, params: &RunParameters) -> (r:
    Option<Vec<u8>>)
    requires
        updated_line@ == line@ || updated_line@ == lower_bytes(line@),
    ensures
        r.deep_view() == formatted_body(line@, updated_line@, *params),
{
    if !params.query.is_match(updated_line.as_slice()) {
        return None;
    }
    if !params.highlight {
        let shown = line.clone();
        proof {
            assert(shown@ =~= line@);
        }
        return Some(shown);
    }
    let ghost total = highlight_from(line@, match_spans(params.query.src(), updated_line@), 0);
    let spans = params.query.find_spans(updated_line.as_slice());
    proof {
        assert(updated_line@.len() == line@.len());
    }
    let mut out: Vec<u8> = Vec::new();
    let mut pos: usize = 0;
    let mut i: usize = 0;
    proof {
        assert(spans@.skip(0) =~= spans@);
        assert(out@ + highlight_from(line@, spans@, 0) =~= highlight_from(line@, spans@, 0));
    }
    while i < spans.len()
        invariant
            i <= spans@.len(),
            spans@ == match_spans(params.query.src(), updated_line@),
            spans_wf(spans@, line@.len() as int),
            pos <= line@.len(),
            i < spans@.len() ==> pos <= spans@[i as int].0,
            total == out@ + highlight_from(line@, spans@.skip(i as int), pos as int),
        decreases spans@.len() - i,
    {
        let span = spans[i];
        let ghost rest = spans@.skip(i as int);
        push_range(&mut out, line, pos, span.0);
        push_start_marker(&mut out);
        push_range(&mut out, line, span.0, span.1);
        push_end_marker(&mut out);
        pos = span.1;
        i += 1;
        proof {
            assert(rest[0] == span);
            assert(rest.drop_first() =~= spans@.skip(i as int));
        }
    }
    proof {
        assert(spans@.skip(i as int) =~= Seq::<(usize, usize)>::empty());
    }
    push_range(&mut out, line, pos, line.len());
    proof {
        assert(out@ == total);
    }
    Some(out)
}

} // verus!
