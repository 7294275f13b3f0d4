//! The per-file result blocks: what one scanned file contributes to the
//! program's output, composed as a single buffer so that a concurrent
//! driver can print it in one write.

use vstd::prelude::*;

use crate::text::push_range;

verus! {

/// The outcome of one file's worth of work, as the driver hands it back:
/// the rows its scan produced, or the rendering of the error that kept it
/// from being opened. Failures stay isolated in their own report.
pub enum FileReport {
    Scanned { path: Vec<u8>, rows: Vec<Vec<u8>> },
    OpenFailed { path: Vec<u8>, error: Vec<u8> },
}

/// The bytes of `"\nResults for file: "`.
pub open spec fn results_header() -> Seq<u8> {
    seq![
        10u8, 82u8, 101u8, 115u8, 117u8, 108u8, 116u8, 115u8, 32u8, 102u8, 111u8, 114u8, 32u8,
        102u8, 105u8, 108u8, 101u8, 58u8, 32u8,
    ]
}

/// The bytes of `"Error opening file "`.
pub open spec fn error_header() -> Seq<u8> {
    seq![
        69u8, 114u8, 114u8, 111u8, 114u8, 32u8, 111u8, 112u8, 101u8, 110u8, 105u8, 110u8, 103u8,
        32u8, 102u8, 105u8, 108u8, 101u8, 32u8,
    ]
}

/// The bytes of `"No file found"`, the distinct notice for an empty file
/// collection.
pub open spec fn no_files_text() -> Seq<u8> {
    seq![78u8, 111u8, 32u8, 102u8, 105u8, 108u8, 101u8, 32u8, 102u8, 111u8, 117u8, 110u8, 100u8]
}

/// The rows of one file joined by single newlines, in scan order.
pub open spec fn joined_rows(rows: Seq<Seq<u8>>) -> Seq<u8>
    decreases rows.len(),
{
    if rows.len() == 0 {
        Seq::<u8>::empty()
    } else if rows.len() == 1 {
        rows[0]
    } else {
        rows[0] + seq![10u8] + joined_rows(rows.drop_first())
    }
}

/// The output block of one report: a header naming the file followed by
/// its rows, or the line reporting why the file could not be opened.
/// Either way the block ends with a newline and is printed as one piece.
pub open spec fn block_of(r: FileReport) -> Seq<u8> {
    match r {
        FileReport::Scanned { path, rows } => results_header() + path@ + seq![32u8, 10u8]
            + joined_rows(rows.deep_view()) + seq![10u8],
        FileReport::OpenFailed { path, error } => error_header() + path@ + seq![58u8, 32u8]
            + error@ + seq![10u8],
    }
}

/// Joining one more row appends a newline separator exactly when rows
/// came before it.
proof fn lemma_joined_snoc(rows: Seq<Seq<u8>>, x: Seq<u8>)
    ensures
        rows.len() == 0 ==> joined_rows(rows.push(x)) == x,
        rows.len() > 0 ==> joined_rows(rows.push(x)) == joined_rows(rows) + seq![10u8] + x,
    decreases rows.len(),
{
    let t = rows.push(x);
    if rows.len() == 0 {
        assert(t.len() == 1);
        assert(t[0] == x);
    } else {
        lemma_joined_snoc(rows.drop_first(), x);
        assert(t[0] == rows[0]);
        assert(t.drop_first() =~= rows.drop_first().push(x));
        if rows.len() == 1 {
            assert(joined_rows(t) == t[0] + seq![10u8] + joined_rows(t.drop_first()));
            assert(joined_rows(rows) == rows[0]);
        } else {
            assert(joined_rows(t) == t[0] + seq![10u8] + joined_rows(t.drop_first()));
            assert(rows[0] + seq![10u8] + (joined_rows(rows.drop_first()) + seq![10u8] + x) =~= (
            rows[0] + seq![10u8] + joined_rows(rows.drop_first())) + seq![10u8] + x);
        }
    }
}

/// Appends all of `src` to `out`.
fn push_all(out: &mut Vec<u8>, src: &Vec<u8>)
    ensures
        final(out)@ == old(out)@ + src@,
{
    push_range(out, src, 0, src.len());
    proof {
        assert(src@.subrange(0, src@.len() as int) =~= src@);
    }
}

/// Joins the rows of one file with newline separators, in order.
fn join_rows(rows: &Vec<Vec<u8>>) -> (r: Vec<u8>)
    ensures
        r@ == joined_rows(rows.deep_view()),
{
    let mut out: Vec<u8> = Vec::new();
    let mut i: usize = 0;
    proof {
        assert(rows.deep_view().take(0) =~= Seq::<Seq<u8>>::empty());
    }
    while i < rows.len()
        invariant
            i <= rows@.len(),
            out@ == joined_rows(rows.deep_view().take(i as int)),
        decreases rows@.len() - i,
    {
        proof {
            lemma_joined_snoc(rows.deep_view().take(i as int), rows.deep_view()[i as int]);
            assert(rows.deep_view().take(i + 1) =~= rows.deep_view().take(i as int).push(
                rows.deep_view()[i as int],
            ));
        }
        if i > 0 {
            out.push(10);
        }
        push_all(&mut out, &rows[i]);
        proof {
            assert(rows[i as int].deep_view() =~= rows[i as int]@);
            assert(rows.deep_view()[i as int] == rows[i as int].deep_view());
        }
        i += 1;
    }
    proof {
        assert(rows.deep_view().take(rows@.len() as int) =~= rows.deep_view());
    }
    out
}

/// Composes the single output block of one report, exactly as it is to be
/// written: header, rows and trailing newline for a scanned file, or the
/// one-line open-error notice.
pub fn report_block(r: &FileReport) -> (out: Vec<u8>)
    ensures
        out@ == block_of(*r),
{
    let mut out: Vec<u8> = Vec::new();
    match r {
        FileReport::Scanned { path, rows } => {
            out.push(10);
            out.push(82);
            out.push(101);
            out.push(115);
            out.push(117);
            out.push(108);
            out.push(116);
            out.push(115);
            out.push(32);
            out.push(102);
            out.push(111);
            out.push(114);
            out.push(32);
            out.push(102);
            out.push(105);
            out.push(108);
            out.push(101);
            out.push(58);
            out.push(32);
            proof {
                assert(out@ =~= results_header());
            }
            push_all(&mut out, path);
            out.push(32);
            out.push(10);
            let joined = join_rows(rows);
            push_all(&mut out, &joined);
            out.push(10);
            proof {
                assert(out@ =~= block_of(*r));
            }
        },
        FileReport::OpenFailed { path, error } => {
            out.push(69);
            out.push(114);
            out.push(114);
            out.push(111);
            out.push(114);
            out.push(32);
            out.push(111);
            out.push(112);
            out.push(101);
            out.push(110);
            out.push(105);
            out.push(110);
            out.push(103);
            out.push(32);
            out.push(102);
            out.push(105);
            out.push(108);
            out.push(101);
            out.push(32);
            proof {
                assert(out@ =~= error_header());
            }
            push_all(&mut out, path);
            out.push(58);
            out.push(32);
            push_all(&mut out, error);
            out.push(10);
            proof {
                assert(out@ =~= block_of(*r));
            }
        },
    }
    out
}

/// Turns the reports the driver collected into their printable blocks:
/// exactly one block per report, each determined by that report alone, in
/// the order the reports were handed over.
pub fn file_blocks(reports: &Vec<FileReport>) -> (out: Vec<Vec<u8>>)
    ensures
        out@.len() == reports@.len(),
        forall|i: int|
            0 <= i < reports@.len() ==> out.deep_view()[i] == block_of(#[trigger] reports@[i]),
{
    let mut out: Vec<Vec<u8>> = Vec::new();
    let mut i: usize = 0;
    while i < reports.len()
        invariant
            i <= reports@.len(),
            out@.len() == i,
            forall|j: int| 0 <= j < i ==> out.deep_view()[j] == block_of(#[trigger] reports@[j]),
        decreases reports@.len() - i,
    {
        let block = report_block(&reports[i]);
        let ghost bv = block@;
        out.push(block);
        proof {
            assert(out.deep_view()[i as int] =~= bv);
        }
        i += 1;
    }
    out
}

/// The distinct notice for a run given no files at all.
pub fn no_files_notice() -> (out: Vec<u8>)
    ensures
        out@ == no_files_text(),
{
    let mut out: Vec<u8> = Vec::new();
    out.push(78);
    out.push(111);
    out.push(32);
    out.push(102);
    out.push(105);
    out.push(108);
    out.push(101);
    out.push(32);
    out.push(102);
    out.push(111);
    out.push(117);
    out.push(110);
    out.push(100);
    proof {
        assert(out@ =~= no_files_text());
    }
    out
}

} // verus!
