//! The render boundary: materialize a requested range of lines as paintable
//! runs of (text, color). Pure and range-limited, so a virtualized list can
//! query any window of lines, repeatedly and in any order.

use vstd::prelude::*;

use crate::types::{HighlightedDocument, doc_model, seg_model};
use crate::colors::{ColorTable, entries_model, spec_resolve_color};

verus! {

/// One paintable run: contiguous same-colored text within one line.
#[derive(Debug, Clone, PartialEq, Eq)]
pub struct PaintRun {
    pub text: Vec<u8>,
    pub color: u32,
}

/// Spec view of a paint run.
pub open spec fn run_model(r: PaintRun) -> (Seq<u8>, u32) {
    (r.text@, r.color)
}

/// Spec view of one painted line.
pub open spec fn painted_line_model(l: Vec<PaintRun>) -> Seq<(Seq<u8>, u32)> {
    l@.map_values(|r: PaintRun| run_model(r))
}

/// Spec view of a painted range of lines.
pub open spec fn painted_model(ls: Seq<Vec<PaintRun>>) -> Seq<Seq<(Seq<u8>, u32)>> {
    ls.map_values(|l: Vec<PaintRun>| painted_line_model(l))
}

/// What painting one line yields: each segment keeps its text and gets the
/// color its capture name resolves to.
pub open spec fn spec_paint_line(
    line: Seq<(Seq<u8>, Option<Seq<char>>)>,
    es: Seq<(Seq<char>, u32)>,
    def: u32,
) -> Seq<(Seq<u8>, u32)> {
    line.map_values(|s: (Seq<u8>, Option<Seq<char>>)| (s.0, spec_resolve_color(es, def, s.1)))
}

/// What painting the line range [start, end) of the document yields.
pub open spec fn spec_get_lines(
    doc: Seq<Seq<(Seq<u8>, Option<Seq<char>>)>>,
    es: Seq<(Seq<char>, u32)>,
    def: u32,
    start: int,
    end: int,
) -> Seq<Seq<(Seq<u8>, u32)>> {
    doc.subrange(start, end).map_values(|l: Seq<(Seq<u8>, Option<Seq<char>>)>| spec_paint_line(
        l,
        es,
        def,
    ))
}

/// Copy one line's bytes out of a segment.
fn clone_bytes(v: &Vec<u8>) -> (r: Vec<u8>)
    ensures
        r@ == v@,
{
    let mut r: Vec<u8> = Vec::new();
    let mut k: usize = 0;
    while k < v.len()
        invariant
            k <= v.len(),
            r@ == v@.take(k as int),
        decreases v.len() - k,
    {
        r.push(v[k]);
        proof {
            assert(v@.take((k + 1) as int) =~= v@.take(k as int).push(v@[k as int]));
        }
        k = k + 1;
    }
    proof {
        assert(v@.take(v@.len() as int) =~= v@);
    }
    r
}

/// Materialize the line range [start, end) as paintable runs: one run per
/// segment, its text unchanged and its color resolved through the table.
/// Read-only, so overlapping ranges may be requested repeatedly.
pub fn get_lines(
    doc: &HighlightedDocument,
    table: &ColorTable,
    start: usize,
    end: usize,
) -> (r: Vec<Vec<PaintRun>>)
    requires
        start <= end <= doc.lines@.len(),
    ensures
        painted_model(r@) == spec_get_lines(
            doc_model(*doc),
            entries_model(table.entries@),
            table.default_color,
            start as int,
            end as int,
        ),
{
    let ghost dm = doc_model(*doc);
    let ghost es = entries_model(table.entries@);
    let ghost target = spec_get_lines(dm, es, table.default_color, start as int, end as int);
    let mut r: Vec<Vec<PaintRun>> = Vec::new();
    let mut i: usize = start;
    proof {
        assert(painted_model(r@) =~= target.take(0));
    }
    while i < end
        invariant
            start <= i <= end <= doc.lines@.len(),
            dm == doc_model(*doc),
            es == entries_model(table.entries@),
            target == spec_get_lines(dm, es, table.default_color, start as int, end as int),
            painted_model(r@) == target.take(i - start),
        decreases end - i,
    {
        let line = &doc.lines[i];
        let ghost lm = crate::types::line_model(*line);
        let mut runs: Vec<PaintRun> = Vec::new();
        let mut j: usize = 0;
        proof {
            assert(painted_line_model(runs) =~= spec_paint_line(lm, es, table.default_color).take(
                0,
            ));
            assert(dm[i as int] == lm);
        }
        while j < line.len()
            invariant
                j <= line.len(),
                es == entries_model(table.entries@),
                lm == crate::types::line_model(*line),
                painted_line_model(runs) == spec_paint_line(lm, es, table.default_color).take(
                    j as int,
                ),
            decreases line.len() - j,
        {
            let seg = &line[j];
            let run = PaintRun {
                text: clone_bytes(&seg.text),
                color: table.resolve_color(&seg.capture),
            };
            let ghost prev = runs;
            runs.push(run);
            proof {
                assert(lm[j as int] == seg_model(*seg));
                assert(run_model(run) == spec_paint_line(lm, es, table.default_color)[j as int]);
                assert(painted_line_model(runs) =~= painted_line_model(prev).push(run_model(run)));
                assert(painted_line_model(runs) =~= spec_paint_line(
                    lm,
                    es,
                    table.default_color,
                ).take(j + 1));
            }
            j = j + 1;
        }
        proof {
            assert(spec_paint_line(lm, es, table.default_color).take(line@.len() as int)
                =~= spec_paint_line(lm, es, table.default_color));
        }
        let ghost prevr = r;
        r.push(runs);
        proof {
            assert(target[i - start] == spec_paint_line(dm[i as int], es, table.default_color));
            assert(painted_model(r@) =~= painted_model(prevr@).push(painted_line_model(runs)));
            assert(painted_model(r@) =~= target.take(i + 1 - start));
        }
        i = i + 1;
    }
    proof {
        assert(target.take(end - start) =~= target);
    }
    r
}

} // verus!
