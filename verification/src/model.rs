//! The mathematical model of the pipeline: how source bytes split into
//! lines, which capture wins at each position, and what segments a line
//! yields. The executable builder is proved equal to this model.

use vstd::prelude::*;

verus! {

/// The line-feed byte that terminates a line.
pub open spec fn nl() -> u8 {
    10u8
}

/// Line ranges of `text` from scan position `cur`, the current line having
/// started at `start`. A line is a maximal run of bytes not containing the
/// line-feed byte; the terminator itself belongs to no line. `text` with no
/// line feed yields a single line, so the empty buffer yields one empty line.
pub open spec fn spec_line_ranges_from(text: Seq<u8>, start: int, cur: int) -> Seq<(int, int)>
    decreases text.len() - cur,
{
    if cur < 0 || cur >= text.len() {
        seq![(start, text.len() as int)]
    } else if text[cur] == nl() {
        seq![(start, cur)] + spec_line_ranges_from(text, cur + 1, cur + 1)
    } else {
        spec_line_ranges_from(text, start, cur + 1)
    }
}

/// The [start, end) byte ranges of the lines of `text`, in order.
pub open spec fn spec_line_ranges(text: Seq<u8>) -> Seq<(int, int)> {
    spec_line_ranges_from(text, 0, 0)
}

/// No line-feed byte occurs in [a, b) of `text`.
pub open spec fn no_nl_in(text: Seq<u8>, a: int, b: int) -> bool {
    forall|k: int| a <= k < b ==> #[trigger] text[k] != nl()
}

/// Structure of the line ranges: they are non-empty, start where the scan
/// started, chain one after the other with exactly one line-feed byte
/// between neighbours, end at the buffer's end, and contain no line feed.
pub proof fn lemma_line_ranges_from_props(text: Seq<u8>, start: int, cur: int)
    requires
        0 <= start <= cur <= text.len(),
        no_nl_in(text, start, cur),
    ensures
        ({
            let r = spec_line_ranges_from(text, start, cur);
            &&& r.len() >= 1
            &&& r[0].0 == start
            &&& r[r.len() - 1].1 == text.len()
            &&& forall|i: int|
                0 <= i < r.len() ==> start <= (#[trigger] r[i]).0 <= r[i].1 <= text.len()
            &&& forall|i: int|
                0 <= i < r.len() - 1 ==> (#[trigger] r[i]).1 + 1 == r[i + 1].0 && text[r[i].1]
                    == nl()
            &&& forall|i: int| 0 <= i < r.len() ==> no_nl_in(text, (#[trigger] r[i]).0, r[i].1)
        }),
    decreases text.len() - cur,
{
    let r = spec_line_ranges_from(text, start, cur);
    if cur >= text.len() {
        assert(r =~= seq![(start, text.len() as int)]);
    } else if text[cur] == nl() {
        lemma_line_ranges_from_props(text, cur + 1, cur + 1);
        let rest = spec_line_ranges_from(text, cur + 1, cur + 1);
        assert(r =~= seq![(start, cur)] + rest);
        assert(forall|i: int| 0 <= i < rest.len() ==> r[i + 1] == rest[i]);
    } else {
        assert(no_nl_in(text, start, cur + 1));
        lemma_line_ranges_from_props(text, start, cur + 1);
    }
}

/// Whether capture `c` covers buffer position `p`. A malformed capture
/// (empty or reversed range) covers nothing, which drops it.
pub open spec fn covers(c: (int, int, Seq<char>), p: int) -> bool {
    c.0 <= p < c.1
}

/// Length of the part of capture `c` that lies inside the line [ls, le):
/// the measure by which "innermost" is judged.
pub open spec fn clip_len(c: (int, int, Seq<char>), ls: int, le: int) -> int {
    (if c.1 < le {
        c.1
    } else {
        le
    }) - (if c.0 > ls {
        c.0
    } else {
        ls
    })
}

/// Index of the capture that wins at position `p` of line [ls, le): among
/// the captures covering `p`, the one whose clipped range is shortest; on a
/// tie, the earliest-declared one.
pub open spec fn win_at(caps: Seq<(int, int, Seq<char>)>, ls: int, le: int, p: int) -> Option<
    int,
>
    decreases caps.len(),
{
    if caps.len() == 0 {
        Option::None
    } else {
        let i = caps.len() - 1;
        let c = caps[i];
        let rest = win_at(caps.drop_last(), ls, le, p);
        if covers(c, p) {
            match rest {
                Option::None => Option::Some(i as int),
                Option::Some(j) => if clip_len(c, ls, le) < clip_len(caps[j], ls, le) {
                    Option::Some(i as int)
                } else {
                    Option::Some(j)
                },
            }
        } else {
            rest
        }
    }
}

/// A winner, where there is one, is a real index and covers its position.
pub proof fn lemma_win_at_props(caps: Seq<(int, int, Seq<char>)>, ls: int, le: int, p: int)
    ensures
        win_at(caps, ls, le, p) matches Some(j) ==> 0 <= j < caps.len() && covers(caps[j], p),
        win_at(caps, ls, le, p) is None ==> forall|k: int|
            0 <= k < caps.len() ==> !covers(#[trigger] caps[k], p),
    decreases caps.len(),
{
    if caps.len() > 0 {
        lemma_win_at_props(caps.drop_last(), ls, le, p);
        assert(forall|k: int| 0 <= k < caps.len() - 1 ==> caps.drop_last()[k] == caps[k]);
    }
}

/// The segment boundaries of line [ls, le), scanning from position `p` with
/// the current segment open since `seg_start`: a new segment begins exactly
/// where the winning capture changes, so each boundary range is a maximal
/// run of positions sharing one winner.
pub open spec fn spec_seg_bounds(
    caps: Seq<(int, int, Seq<char>)>,
    ls: int,
    le: int,
    seg_start: int,
    p: int,
) -> Seq<(int, int)>
    decreases le - p,
{
    if p >= le {
        seq![(seg_start, le)]
    } else if win_at(caps, ls, le, p) == win_at(caps, ls, le, seg_start) {
        spec_seg_bounds(caps, ls, le, seg_start, p + 1)
    } else {
        seq![(seg_start, p)] + spec_seg_bounds(caps, ls, le, p, p + 1)
    }
}

/// The capture name attached to the segment that starts at position `s`.
pub open spec fn seg_name(caps: Seq<(int, int, Seq<char>)>, ls: int, le: int, s: int) -> Option<
    Seq<char>,
> {
    match win_at(caps, ls, le, s) {
        Option::Some(j) => Option::Some(caps[j].2),
        Option::None => Option::None,
    }
}

/// The segment a boundary range yields: its bytes and its capture name.
pub open spec fn seg_of_bound(
    text: Seq<u8>,
    caps: Seq<(int, int, Seq<char>)>,
    ls: int,
    le: int,
    b: (int, int),
) -> (Seq<u8>, Option<Seq<char>>) {
    (text.subrange(b.0, b.1), seg_name(caps, ls, le, b.0))
}

/// The segments the boundary ranges `bs` yield, in order.
pub open spec fn map_bounds(
    text: Seq<u8>,
    caps: Seq<(int, int, Seq<char>)>,
    ls: int,
    le: int,
    bs: Seq<(int, int)>,
) -> Seq<(Seq<u8>, Option<Seq<char>>)> {
    bs.map_values(|b: (int, int)| seg_of_bound(text, caps, ls, le, b))
}

/// The segments of line [ls, le): an empty line has no segments; otherwise
/// each maximal same-winner run becomes one segment carrying its bytes and
/// its winner's capture name.
pub open spec fn spec_line(text: Seq<u8>, caps: Seq<(int, int, Seq<char>)>, ls: int, le: int) -> Seq<
    (Seq<u8>, Option<Seq<char>>),
> {
    if le <= ls {
        Seq::empty()
    } else {
        map_bounds(text, caps, ls, le, spec_seg_bounds(caps, ls, le, ls, ls + 1))
    }
}

/// Where the winner changes, the segment list splits off the finished run.
pub proof fn lemma_step_bounds(
    text: Seq<u8>,
    caps: Seq<(int, int, Seq<char>)>,
    ls: int,
    le: int,
    seg_start: int,
    p: int,
)
    requires
        p < le,
        win_at(caps, ls, le, p) != win_at(caps, ls, le, seg_start),
    ensures
        map_bounds(text, caps, ls, le, spec_seg_bounds(caps, ls, le, seg_start, p)) == seq![
            seg_of_bound(text, caps, ls, le, (seg_start, p)),
        ] + map_bounds(text, caps, ls, le, spec_seg_bounds(caps, ls, le, p, p + 1)),
{
    assert(spec_seg_bounds(caps, ls, le, seg_start, p) == seq![(seg_start, p)] + spec_seg_bounds(
        caps,
        ls,
        le,
        p,
        p + 1,
    ));
    assert(map_bounds(
        text,
        caps,
        ls,
        le,
        seq![(seg_start, p)] + spec_seg_bounds(caps, ls, le, p, p + 1),
    ) =~= seq![seg_of_bound(text, caps, ls, le, (seg_start, p))] + map_bounds(
        text,
        caps,
        ls,
        le,
        spec_seg_bounds(caps, ls, le, p, p + 1),
    ));
}

/// The segment lists the given line ranges yield, in order.
pub open spec fn build_ranges(
    text: Seq<u8>,
    caps: Seq<(int, int, Seq<char>)>,
    rs: Seq<(int, int)>,
) -> Seq<Seq<(Seq<u8>, Option<Seq<char>>)>> {
    rs.map_values(|r: (int, int)| spec_line(text, caps, r.0, r.1))
}

/// The whole document built from `text` and `caps`: one segment list per
/// line range.
pub open spec fn spec_build(text: Seq<u8>, caps: Seq<(int, int, Seq<char>)>) -> Seq<
    Seq<(Seq<u8>, Option<Seq<char>>)>,
> {
    build_ranges(text, caps, spec_line_ranges(text))
}

/// Concatenation of the byte runs of one line's segments, in order.
pub open spec fn concat_texts(line: Seq<(Seq<u8>, Option<Seq<char>>)>) -> Seq<u8>
    decreases line.len(),
{
    if line.len() == 0 {
        Seq::empty()
    } else {
        line[0].0 + concat_texts(line.drop_first())
    }
}

/// The source text a document stands for: line texts joined by the
/// line-feed byte.
pub open spec fn reconstruct(doc: Seq<Seq<(Seq<u8>, Option<Seq<char>>)>>) -> Seq<u8>
    decreases doc.len(),
{
    if doc.len() == 0 {
        Seq::empty()
    } else if doc.len() == 1 {
        concat_texts(doc[0])
    } else {
        concat_texts(doc[0]) + seq![nl()] + reconstruct(doc.drop_first())
    }
}

/// Whether every segment of the document carries no capture name.
pub open spec fn all_plain(doc: Seq<Seq<(Seq<u8>, Option<Seq<char>>)>>) -> bool {
    forall|i: int, j: int|
        0 <= i < doc.len() && 0 <= j < doc[i].len() ==> (#[trigger] doc[i][j].1) is None
}

} // verus!
