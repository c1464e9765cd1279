//! The segment builder: the executable pipeline from source bytes and a
//! capture list to a highlighted document, verified against the model.

use vstd::prelude::*;

use crate::model::{
    spec_line_ranges, spec_line_ranges_from, win_at, covers, clip_len, spec_seg_bounds, spec_line,
    spec_build, seg_of_bound, map_bounds, lemma_step_bounds,
};
use crate::types::{
    Capture, Segment, HighlightedDocument, cap_model, caps_model, seg_model, line_model,
    lines_model, doc_model, opt_idx_model,
};

verus! {

/// Spec view of an executable line-range list.
pub open spec fn ranges_model(rs: Seq<(usize, usize)>) -> Seq<(int, int)> {
    rs.map_values(|r: (usize, usize)| (r.0 as int, r.1 as int))
}

/// Split the buffer into its line ranges at line-feed bytes.
pub fn find_line_ranges(text: &Vec<u8>) -> (r: Vec<(usize, usize)>)
    ensures
        ranges_model(r@) == spec_line_ranges(text@),
{
    let mut out: Vec<(usize, usize)> = Vec::new();
    let mut start: usize = 0;
    let mut i: usize = 0;
    while i < text.len()
        invariant
            0 <= start <= i <= text.len(),
            ranges_model(out@) + spec_line_ranges_from(text@, start as int, i as int)
                == spec_line_ranges(text@),
        decreases text.len() - i,
    {
        if text[i] == 10u8 {
            let ghost prev = out@;
            out.push((start, i));
            proof {
                assert(ranges_model(out@) =~= ranges_model(prev) + seq![(start as int, i as int)]);
                assert(spec_line_ranges_from(text@, start as int, i as int)
                    == seq![(start as int, i as int)] + spec_line_ranges_from(
                    text@,
                    i + 1,
                    i + 1,
                ));
                assert(ranges_model(out@) + spec_line_ranges_from(text@, i + 1, i + 1)
                    =~= ranges_model(prev) + spec_line_ranges_from(text@, start as int, i as int));
            }
            start = i + 1;
        } else {
            proof {
                assert(spec_line_ranges_from(text@, start as int, i as int)
                    == spec_line_ranges_from(text@, start as int, i + 1));
            }
        }
        i = i + 1;
    }
    let ghost prev = out@;
    out.push((start, text.len()));
    proof {
        assert(spec_line_ranges_from(text@, start as int, i as int) == seq![
            (start as int, text@.len() as int),
        ]);
        assert(ranges_model(out@) =~= ranges_model(prev) + seq![
            (start as int, text@.len() as int),
        ]);
    }
    out
}

/// Equality on optional capture indices.
fn opt_idx_eq(a: &Option<usize>, b: &Option<usize>) -> (r: bool)
    ensures
        r == (opt_idx_model(*a) == opt_idx_model(*b)),
{
    match (a, b) {
        (Option::None, Option::None) => true,
        (Option::Some(x), Option::Some(y)) => *x == *y,
        _ => false,
    }
}

/// The capture that wins at position `p` of line [ls, le), as an index into
/// `caps`: the covering capture with the shortest clipped range, earliest
/// declared on a tie.
pub fn resolve_at(caps: &Vec<Capture>, ls: usize, le: usize, p: usize) -> (r: Option<usize>)
    requires
        ls <= p < le,
    ensures
        opt_idx_model(r) == win_at(caps_model(caps@), ls as int, le as int, p as int),
        r matches Some(j) ==> j < caps.len(),
{
    let ghost m = caps_model(caps@);
    let mut best: Option<usize> = None;
    let mut i: usize = 0;
    while i < caps.len()
        invariant
            ls <= p < le,
            i <= caps.len(),
            m == caps_model(caps@),
            opt_idx_model(best) == win_at(m.take(i as int), ls as int, le as int, p as int),
            best matches Some(j) ==> j < i,
        decreases caps.len() - i,
    {
        proof {
            assert(m.take(i + 1).drop_last() =~= m.take(i as int));
            assert(m.take(i + 1).last() == cap_model(caps@[i as int]));
        }
        let c_start = caps[i].start;
        let c_end = caps[i].end;
        if c_start <= p && p < c_end {
            match best {
                Option::None => {
                    best = Some(i);
                },
                Option::Some(j) => {
                    let b_start = caps[j].start;
                    let b_end = caps[j].end;
                    proof {
                        crate::model::lemma_win_at_props(
                            m.take(i as int),
                            ls as int,
                            le as int,
                            p as int,
                        );
                        assert(m.take(i as int)[j as int] == m[j as int]);
                        assert(covers(m[j as int], p as int));
                    }
                    let c_clip = (if c_end < le {
                        c_end
                    } else {
                        le
                    }) - (if c_start > ls {
                        c_start
                    } else {
                        ls
                    });
                    let b_clip = (if b_end < le {
                        b_end
                    } else {
                        le
                    }) - (if b_start > ls {
                        b_start
                    } else {
                        ls
                    });
                    proof {
                        assert(c_clip == clip_len(m[i as int], ls as int, le as int));
                        assert(b_clip == clip_len(m[j as int], ls as int, le as int));
                        assert(m.take(i + 1)[j as int] == m[j as int]);
                    }
                    if c_clip < b_clip {
                        best = Some(i);
                    }
                },
            }
        }
        i = i + 1;
    }
    proof {
        assert(m.take(caps@.len() as int) =~= m);
    }
    best
}

/// Copy the byte range [s, e) out of the buffer.
fn copy_range(text: &Vec<u8>, s: usize, e: usize) -> (r: Vec<u8>)
    requires
        s <= e <= text.len(),
    ensures
        r@ == text@.subrange(s as int, e as int),
{
    let mut r: Vec<u8> = Vec::new();
    let mut k: usize = s;
    while k < e
        invariant
            s <= k <= e <= text.len(),
            r@ == text@.subrange(s as int, k as int),
        decreases e - k,
    {
        r.push(text[k]);
        proof {
            assert(text@.subrange(s as int, (k + 1) as int) =~= text@.subrange(
                s as int,
                k as int,
            ).push(text@[k as int]));
        }
        k = k + 1;
    }
    r
}

/// The capture name the winning index stands for, cloned out of the list.
fn capture_name_of(caps: &Vec<Capture>, w: &Option<usize>) -> (r: Option<String>)
    requires
        *w matches Some(j) ==> j < caps.len(),
    ensures
        match *w {
            Option::Some(j) => r matches Some(n) && n@ == caps@[j as int].name@,
            Option::None => r is None,
        },
{
    match w {
        Option::Some(j) => Some(caps[*j].name.clone()),
        Option::None => None,
    }
}

/// Build the segments of the line [ls, le): walk the line left to right and
/// start a new segment exactly where the winning capture changes, so that
/// the segments partition the line into maximal same-winner runs.
pub fn build_line(text: &Vec<u8>, caps: &Vec<Capture>, ls: usize, le: usize) -> (segs: Vec<
    Segment,
>)
    requires
        ls <= le <= text.len(),
    ensures
        line_model(segs) == spec_line(text@, caps_model(caps@), ls as int, le as int),
{
    let ghost m = caps_model(caps@);
    let mut segs: Vec<Segment> = Vec::new();
    if ls == le {
        proof {
            assert(line_model(segs) =~= spec_line(text@, m, ls as int, le as int));
        }
        return segs;
    }
    let mut seg_start: usize = ls;
    let mut cur_win: Option<usize> = resolve_at(caps, ls, le, ls);
    let mut p: usize = ls + 1;
    proof {
        assert(line_model(segs) + map_bounds(
            text@,
            m,
            ls as int,
            le as int,
            spec_seg_bounds(m, ls as int, le as int, ls as int, ls + 1),
        ) =~= spec_line(text@, m, ls as int, le as int));
    }
    while p < le
        invariant
            ls <= seg_start < p <= le <= text.len(),
            m == caps_model(caps@),
            opt_idx_model(cur_win) == win_at(m, ls as int, le as int, seg_start as int),
            cur_win matches Some(j) ==> j < caps.len(),
            line_model(segs) + map_bounds(
                text@,
                m,
                ls as int,
                le as int,
                spec_seg_bounds(m, ls as int, le as int, seg_start as int, p as int),
            ) == spec_line(text@, m, ls as int, le as int),
        decreases le - p,
    {
        let w = resolve_at(caps, ls, le, p);
        if opt_idx_eq(&w, &cur_win) {
            proof {
                assert(spec_seg_bounds(m, ls as int, le as int, seg_start as int, p as int)
                    == spec_seg_bounds(m, ls as int, le as int, seg_start as int, p + 1));
            }
        } else {
            let seg = Segment {
                text: copy_range(text, seg_start, p),
                capture: capture_name_of(caps, &cur_win),
            };
            let ghost prev = segs;
            segs.push(seg);
            proof {
                lemma_step_bounds(text@, m, ls as int, le as int, seg_start as int, p as int);
                assert(seg_model(seg) == seg_of_bound(
                    text@,
                    m,
                    ls as int,
                    le as int,
                    (seg_start as int, p as int),
                ));
                assert(line_model(segs) =~= line_model(prev) + seq![seg_model(seg)]);
                assert(line_model(segs) + map_bounds(
                    text@,
                    m,
                    ls as int,
                    le as int,
                    spec_seg_bounds(m, ls as int, le as int, p as int, p + 1),
                ) =~= line_model(prev) + map_bounds(
                    text@,
                    m,
                    ls as int,
                    le as int,
                    spec_seg_bounds(m, ls as int, le as int, seg_start as int, p as int),
                ));
            }
            seg_start = p;
            cur_win = w;
        }
        p = p + 1;
    }
    let seg = Segment {
        text: copy_range(text, seg_start, le),
        capture: capture_name_of(caps, &cur_win),
    };
    let ghost prev = segs;
    segs.push(seg);
    proof {
        assert(spec_seg_bounds(m, ls as int, le as int, seg_start as int, le as int) == seq![
            (seg_start as int, le as int),
        ]);
        assert(seg_model(seg) == seg_of_bound(
            text@,
            m,
            ls as int,
            le as int,
            (seg_start as int, le as int),
        ));
        assert(line_model(segs) =~= line_model(prev) + map_bounds(
            text@,
            m,
            ls as int,
            le as int,
            seq![(seg_start as int, le as int)],
        ));
    }
    segs
}

/// Build the whole highlighted document: split the buffer into lines and
/// build each line's segments. Malformed captures are ignored defensively
/// and never abort the pass.
pub fn build_document(text: &Vec<u8>, caps: &Vec<Capture>) -> (doc: HighlightedDocument)
    ensures
        doc_model(doc) == spec_build(text@, caps_model(caps@)),
{
    let ghost m = caps_model(caps@);
    let ranges = find_line_ranges(text);
    proof {
        crate::model::lemma_line_ranges_from_props(text@, 0, 0);
    }
    let mut lines: Vec<Vec<Segment>> = Vec::new();
    let mut i: usize = 0;
    while i < ranges.len()
        invariant
            i <= ranges.len(),
            m == caps_model(caps@),
            ranges_model(ranges@) == spec_line_ranges(text@),
            forall|k: int|
                0 <= k < spec_line_ranges(text@).len() ==> 0 <= (#[trigger] spec_line_ranges(
                    text@,
                )[k]).0 <= spec_line_ranges(text@)[k].1 <= text@.len(),
            lines_model(lines@) == spec_build(text@, m).take(i as int),
        decreases ranges.len() - i,
    {
        let r = ranges[i];
        proof {
            assert(ranges_model(ranges@)[i as int] == (r.0 as int, r.1 as int));
        }
        let segs = build_line(text, caps, r.0, r.1);
        let ghost prev = lines;
        lines.push(segs);
        proof {
            assert(spec_build(text@, m)[i as int] == spec_line(
                text@,
                m,
                r.0 as int,
                r.1 as int,
            ));
            assert(ranges@.len() == spec_line_ranges(text@).len());
            assert(spec_build(text@, m).len() == spec_line_ranges(text@).len());
            assert(lines@ == prev@.push(segs));
            assert(lines_model(prev@).len() == prev@.len());
            assert(spec_build(text@, m).take(i as int).len() == i as int);
            assert(prev@.len() == i as int);
            assert forall|k: int| 0 <= k < i + 1 implies lines_model(lines@)[k]
                == #[trigger] spec_build(text@, m).take(i + 1)[k] by {
                if k < i {
                    assert(lines_model(prev@)[k] == spec_build(text@, m).take(i as int)[k]);
                    assert(lines@[k] == prev@[k]);
                } else {
                    assert(lines@[k] == segs);
                }
            }
            assert(lines_model(lines@) =~= spec_build(text@, m).take(i + 1));
        }
        i = i + 1;
    }
    proof {
        assert(spec_build(text@, m).take(ranges@.len() as int) =~= spec_build(text@, m));
    }
    HighlightedDocument { lines }
}

/// How many lines the document has.
pub fn line_count(doc: &HighlightedDocument) -> (n: usize)
    ensures
        n == doc_model(*doc).len(),
{
    doc.lines.len()
}

} // verus!
