//! The laws of the pipeline: the segments of each line partition the line
//! with no gaps and no overlaps, concatenating all segments in line order
//! reconstructs the source exactly, and a pass is deterministic.

use vstd::prelude::*;

use crate::model::{
    nl, no_nl_in, spec_line_ranges, spec_line_ranges_from, lemma_line_ranges_from_props, win_at,
    spec_seg_bounds, seg_of_bound, map_bounds, spec_line, build_ranges, spec_build, concat_texts,
    reconstruct,
};
use crate::engine::{spec_classify, spec_highlight};

verus! {

/// Structure of a line's segment boundaries: at least one, starting where
/// the open segment started, chaining with no gap and no overlap, each
/// non-empty, and ending exactly at the line's end.
pub proof fn lemma_seg_bounds_props(
    caps: Seq<(int, int, Seq<char>)>,
    ls: int,
    le: int,
    seg_start: int,
    p: int,
)
    requires
        ls <= seg_start < p <= le,
    ensures
        ({
            let b = spec_seg_bounds(caps, ls, le, seg_start, p);
            &&& b.len() >= 1
            &&& b[0].0 == seg_start
            &&& b[b.len() - 1].1 == le
            &&& forall|k: int|
                0 <= k < b.len() ==> seg_start <= (#[trigger] b[k]).0 < b[k].1 <= le
            &&& forall|k: int| 0 <= k < b.len() - 1 ==> (#[trigger] b[k]).1 == b[k + 1].0
        }),
    decreases le - p,
{
    let b = spec_seg_bounds(caps, ls, le, seg_start, p);
    if p >= le {
        assert(b =~= seq![(seg_start, le)]);
    } else if win_at(caps, ls, le, p) == win_at(caps, ls, le, seg_start) {
        lemma_seg_bounds_props(caps, ls, le, seg_start, p + 1);
    } else {
        lemma_seg_bounds_props(caps, ls, le, p, p + 1);
        let rest = spec_seg_bounds(caps, ls, le, p, p + 1);
        assert(b =~= seq![(seg_start, p)] + rest);
        assert(forall|k: int| 0 <= k < rest.len() ==> b[k + 1] == rest[k]);
    }
}

/// Each boundary range is one maximal same-winner run: every position of a
/// range has the winner of the range's start, and neighbouring ranges have
/// different winners.
pub proof fn lemma_seg_bounds_winners(
    caps: Seq<(int, int, Seq<char>)>,
    ls: int,
    le: int,
    seg_start: int,
    p: int,
)
    requires
        ls <= seg_start < p <= le,
        forall|q: int|
            seg_start <= q < p ==> #[trigger] win_at(caps, ls, le, q) == win_at(
                caps,
                ls,
                le,
                seg_start,
            ),
    ensures
        ({
            let b = spec_seg_bounds(caps, ls, le, seg_start, p);
            &&& forall|k: int, q: int|
                0 <= k < b.len() && b[k].0 <= q < b[k].1 ==> #[trigger] win_at(caps, ls, le, q)
                    == win_at(caps, ls, le, (#[trigger] b[k]).0)
            &&& forall|k: int|
                0 <= k < b.len() - 1 ==> win_at(caps, ls, le, (#[trigger] b[k + 1]).0) != win_at(
                    caps,
                    ls,
                    le,
                    b[k].0,
                )
        }),
    decreases le - p,
{
    let b = spec_seg_bounds(caps, ls, le, seg_start, p);
    if p >= le {
        assert(b =~= seq![(seg_start, le)]);
    } else if win_at(caps, ls, le, p) == win_at(caps, ls, le, seg_start) {
        lemma_seg_bounds_winners(caps, ls, le, seg_start, p + 1);
    } else {
        lemma_seg_bounds_winners(caps, ls, le, p, p + 1);
        lemma_seg_bounds_props(caps, ls, le, p, p + 1);
        let rest = spec_seg_bounds(caps, ls, le, p, p + 1);
        assert(b =~= seq![(seg_start, p)] + rest);
        assert(forall|k: int| 0 <= k < rest.len() ==> b[k + 1] == rest[k]);
        assert(rest[0].0 == p);
    }
}

/// Total coverage: for each line of the built document, the segments
/// partition the line's byte range: each carries the bytes of its boundary
/// range, the first starts at the line's start, each range is non-empty,
/// neighbours meet with no gap and no overlap, and the last ends at the
/// line's end. An empty line has no segments.
pub proof fn lemma_total_coverage(text: Seq<u8>, caps: Seq<(int, int, Seq<char>)>, i: int)
    requires
        0 <= i < spec_build(text, caps).len(),
    ensures
        ({
            let r = spec_line_ranges(text)[i];
            let line = spec_build(text, caps)[i];
            let b = spec_seg_bounds(caps, r.0, r.1, r.0, r.0 + 1);
            &&& r.1 <= r.0 ==> line.len() == 0
            &&& r.1 > r.0 ==> {
                &&& line.len() == b.len()
                &&& b[0].0 == r.0
                &&& b[b.len() - 1].1 == r.1
                &&& forall|k: int|
                    0 <= k < b.len() ==> (#[trigger] b[k]).0 < b[k].1 && line[k].0 == text.subrange(
                        b[k].0,
                        b[k].1,
                    )
                &&& forall|k: int| 0 <= k < b.len() - 1 ==> (#[trigger] b[k]).1 == b[k + 1].0
            }
        }),
{
    lemma_line_ranges_from_props(text, 0, 0);
    let r = spec_line_ranges(text)[i];
    let line = spec_build(text, caps)[i];
    assert(line == spec_line(text, caps, r.0, r.1));
    if r.1 > r.0 {
        lemma_seg_bounds_props(caps, r.0, r.1, r.0, r.0 + 1);
        let b = spec_seg_bounds(caps, r.0, r.1, r.0, r.0 + 1);
        assert(forall|k: int|
            0 <= k < b.len() ==> line[k] == seg_of_bound(text, caps, r.0, r.1, #[trigger] b[k]));
    }
}

/// Concatenating the segments of adjacent boundary ranges yields exactly
/// the bytes from the first range's start to the last range's end.
pub proof fn lemma_concat_adjacent(
    text: Seq<u8>,
    caps: Seq<(int, int, Seq<char>)>,
    ls: int,
    le: int,
    b: Seq<(int, int)>,
)
    requires
        b.len() >= 1,
        forall|k: int| 0 <= k < b.len() ==> 0 <= (#[trigger] b[k]).0 <= b[k].1 <= text.len(),
        forall|k: int| 0 <= k < b.len() - 1 ==> (#[trigger] b[k]).1 == b[k + 1].0,
    ensures
        b[0].0 <= b[b.len() - 1].1,
        concat_texts(map_bounds(text, caps, ls, le, b)) == text.subrange(b[0].0, b[b.len() - 1].1),
    decreases b.len(),
{
    let m = map_bounds(text, caps, ls, le, b);
    assert(m[0].0 == text.subrange(b[0].0, b[0].1));
    if b.len() == 1 {
        assert(m.drop_first() =~= Seq::<(Seq<u8>, Option<Seq<char>>)>::empty());
        assert(concat_texts(m.drop_first()) == Seq::<u8>::empty());
        assert(m[0].0 + Seq::<u8>::empty() =~= m[0].0);
    } else {
        let bt = b.drop_first();
        assert(forall|k: int| 0 <= k < bt.len() ==> bt[k] == b[k + 1]);
        lemma_concat_adjacent(text, caps, ls, le, bt);
        assert(m.drop_first() =~= map_bounds(text, caps, ls, le, bt));
        assert(bt[0].0 == b[0].1);
        assert(b[b.len() - 1] == bt[bt.len() - 1]);
        let x = text.subrange(b[0].0, b[0].1);
        let y = text.subrange(bt[0].0, bt[bt.len() - 1].1);
        assert(x.len() == b[0].1 - b[0].0);
        assert(y.len() == bt[bt.len() - 1].1 - b[0].1);
        assert((x + y).len() == b[b.len() - 1].1 - b[0].0);
        assert(x + y =~= text.subrange(b[0].0, b[b.len() - 1].1));
    }
}

/// Per-line round trip: the segments of the line [ls, le), concatenated in
/// order, are byte-identical to the line's original text.
pub proof fn lemma_line_round_trip(text: Seq<u8>, caps: Seq<(int, int, Seq<char>)>, ls: int, le: int)
    requires
        0 <= ls <= le <= text.len(),
    ensures
        concat_texts(spec_line(text, caps, ls, le)) == text.subrange(ls, le),
{
    if le <= ls {
        assert(text.subrange(ls, le) =~= Seq::<u8>::empty());
    } else {
        lemma_seg_bounds_props(caps, ls, le, ls, ls + 1);
        let b = spec_seg_bounds(caps, ls, le, ls, ls + 1);
        lemma_concat_adjacent(text, caps, ls, le, b);
    }
}

/// Joining the lines of the ranges scanned from `cur`, with a line feed
/// between neighbours, reconstructs the rest of the buffer.
proof fn lemma_reconstruct_from(
    text: Seq<u8>,
    caps: Seq<(int, int, Seq<char>)>,
    start: int,
    cur: int,
)
    requires
        0 <= start <= cur <= text.len(),
        no_nl_in(text, start, cur),
    ensures
        reconstruct(build_ranges(text, caps, spec_line_ranges_from(text, start, cur)))
            == text.skip(start),
    decreases text.len() - cur,
{
    let rs = spec_line_ranges_from(text, start, cur);
    let doc = build_ranges(text, caps, rs);
    if cur >= text.len() {
        assert(rs =~= seq![(start, text.len() as int)]);
        assert(doc.len() == 1);
        assert(doc[0] == spec_line(text, caps, start, text.len() as int));
        lemma_line_round_trip(text, caps, start, text.len() as int);
        assert(text.subrange(start, text.len() as int) =~= text.skip(start));
    } else if text[cur] == nl() {
        let rest = spec_line_ranges_from(text, cur + 1, cur + 1);
        assert(rs =~= seq![(start, cur)] + rest);
        assert(rest.len() >= 1) by {
            lemma_line_ranges_from_props(text, cur + 1, cur + 1);
        }
        assert(doc.len() >= 2);
        assert(doc[0] == spec_line(text, caps, start, cur));
        lemma_line_round_trip(text, caps, start, cur);
        lemma_reconstruct_from(text, caps, cur + 1, cur + 1);
        assert(doc.drop_first() =~= build_ranges(text, caps, rest));
        assert(text.subrange(start, cur) + seq![nl()] + text.skip(cur + 1) =~= text.skip(start));
    } else {
        assert(no_nl_in(text, start, cur + 1));
        lemma_reconstruct_from(text, caps, start, cur + 1);
    }
}

/// Round trip: for every source text and every capture list, the segment
/// texts of the built document, concatenated in line order with a line
/// feed between lines, reconstruct the source byte for byte.
pub proof fn lemma_round_trip(text: Seq<u8>, caps: Seq<(int, int, Seq<char>)>)
    ensures
        reconstruct(spec_build(text, caps)) == text,
{
    lemma_reconstruct_from(text, caps, 0, 0);
    assert(text.skip(0) =~= text);
}

/// Round trip holds of a full highlighting pass, whatever the registry,
/// grammar id and engine outcome were.
pub proof fn lemma_pass_round_trip(
    grammars: Seq<(Seq<char>, Seq<char>)>,
    grammar_id: Seq<char>,
    text: Seq<u8>,
)
    ensures
        reconstruct(spec_highlight(grammars, grammar_id, text)) == text,
{
    match spec_classify(grammars, grammar_id, text) {
        Result::Ok(m) => {
            lemma_round_trip(text, m);
        },
        Result::Err(_) => {
            lemma_round_trip(text, Seq::empty());
        },
    }
}

/// Empty input: the empty buffer yields a document of exactly one line
/// with no segments, whatever the captures were.
pub proof fn lemma_empty_input(caps: Seq<(int, int, Seq<char>)>)
    ensures
        spec_build(Seq::<u8>::empty(), caps).len() == 1,
        spec_build(Seq::<u8>::empty(), caps)[0].len() == 0,
{
    let text = Seq::<u8>::empty();
    assert(spec_line_ranges_from(text, 0, 0) =~= seq![(0int, 0int)]);
    assert(spec_build(text, caps)[0] == spec_line(text, caps, 0, 0));
}

/// Idempotence: a highlighting pass is a function of the registered
/// grammars, the grammar id and the source alone, so two passes over
/// identical input yield structurally identical documents.
pub proof fn lemma_idempotent(
    grammars: Seq<(Seq<char>, Seq<char>)>,
    grammar_id: Seq<char>,
    text: Seq<u8>,
    d1: Seq<Seq<(Seq<u8>, Option<Seq<char>>)>>,
    d2: Seq<Seq<(Seq<u8>, Option<Seq<char>>)>>,
)
    requires
        d1 == spec_highlight(grammars, grammar_id, text),
        d2 == spec_highlight(grammars, grammar_id, text),
    ensures
        d1 == d2,
{
}

} // verus!
