//! Data model of the highlighting pipeline: captures, segments, documents,
//! and the spec-level views of each.

use vstd::prelude::*;

verus! {

/// A labeled span of source text reported by the grammar engine.
/// Offsets are byte offsets into the source buffer; `name` is a tag from the
/// grammar's capture vocabulary. Ranges may be malformed (empty, reversed or
/// out of bounds): the segment builder handles those defensively.
#[derive(Debug, Clone, PartialEq, Eq)]
pub struct Capture {
    pub start: usize,
    pub end: usize,
    pub name: String,
}

/// The smallest renderable unit: a contiguous run of bytes within one line,
/// tagged with at most one capture name.
#[derive(Debug, Clone, PartialEq, Eq)]
pub struct Segment {
    pub text: Vec<u8>,
    pub capture: Option<String>,
}

/// An ordered sequence of lines, each an ordered sequence of segments.
/// Built once per highlighting pass and immutable thereafter.
#[derive(Debug, Clone, PartialEq, Eq)]
pub struct HighlightedDocument {
    pub lines: Vec<Vec<Segment>>,
}

/// Errors a highlighting attempt can surface to its caller.
#[derive(Clone, Copy, PartialEq, Eq, Structural, Debug)]
pub enum HighlightError {
    /// The requested grammar is not registered, or its query failed to load.
    GrammarUnavailable,
    /// The source bytes are not valid UTF-8.
    EncodingError,
}

/// Spec view of a capture: (start, end, name).
pub open spec fn cap_model(c: Capture) -> (int, int, Seq<char>) {
    (c.start as int, c.end as int, c.name@)
}

/// Spec view of a capture list.
pub open spec fn caps_model(cs: Seq<Capture>) -> Seq<(int, int, Seq<char>)> {
    cs.map_values(|c: Capture| cap_model(c))
}

/// Spec view of a segment: (bytes, optional capture name).
pub open spec fn seg_model(s: Segment) -> (Seq<u8>, Option<Seq<char>>) {
    (s.text@, match s.capture {
        Option::Some(n) => Option::Some(n@),
        Option::None => Option::None,
    })
}

/// Spec view of one line of segments.
pub open spec fn line_model(l: Vec<Segment>) -> Seq<(Seq<u8>, Option<Seq<char>>)> {
    l@.map_values(|s: Segment| seg_model(s))
}

/// Spec view of a list of lines.
pub open spec fn lines_model(ls: Seq<Vec<Segment>>) -> Seq<Seq<(Seq<u8>, Option<Seq<char>>)>> {
    ls.map_values(|l: Vec<Segment>| line_model(l))
}

/// Spec view of a whole document.
pub open spec fn doc_model(d: HighlightedDocument) -> Seq<Seq<(Seq<u8>, Option<Seq<char>>)>> {
    lines_model(d.lines@)
}

/// Spec view of an optional capture index.
pub open spec fn opt_idx_model(o: Option<usize>) -> Option<int> {
    match o {
        Option::Some(j) => Option::Some(j as int),
        Option::None => Option::None,
    }
}

/// Spec view of an optional owned string.
pub open spec fn opt_str_model(o: Option<String>) -> Option<Seq<char>> {
    match o {
        Option::Some(s) => Option::Some(s@),
        Option::None => Option::None,
    }
}

} // verus!
