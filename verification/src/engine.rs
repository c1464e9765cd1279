//! The capture classifier: the grammar engine (tree-sitter with the
//! assembly grammar) is an external collaborator reached through one
//! trusted wrapper; everything downstream of the capture list is verified.

use vstd::prelude::*;

use tree_sitter::{Language, Parser, Query, QueryCursor, StreamingIterator};

use crate::types::{
    Capture, HighlightedDocument, HighlightError, cap_model, caps_model, doc_model,
};
use crate::model::{spec_build, all_plain, win_at};
use crate::registry::{LanguageRegistry, grammars_model, spec_lookup_grammar};
use crate::segments::build_document;

verus! {

/// Whether the bytes are valid UTF-8.
pub uninterp spec fn is_utf8(bytes: Seq<u8>) -> bool;

/// Relies on str::from_utf8: whether it accepts the bytes depends on the
/// bytes alone.
#[verifier::external_body]
fn utf8_check(bytes: &Vec<u8>) -> (r: bool)
    ensures
        r == is_utf8(bytes@),
{
    core::str::from_utf8(bytes).is_ok()
}

/// What one run of the grammar engine yields on the given source bytes and
/// highlight query: the capture spans (start offset, end offset, name) in
/// the order the engine reports them, or nothing where the query does not
/// compile or the engine cannot parse. The engine is deterministic: the
/// result is a function of the bytes and the query alone.
pub uninterp spec fn asm_engine_captures(text: Seq<u8>, query: Seq<char>) -> Option<
    Seq<(int, int, Seq<char>)>,
>;

/// Relies on the tree-sitter crate with the tree-sitter-asm grammar:
/// Language::new on tree_sitter_asm::LANGUAGE, Parser::new, set_language,
/// parse, Query::new, capture_names, QueryCursor::new and its captures
/// iterator, and Node::start_byte / end_byte. One parse of the source with
/// one run of the highlight query; the capture list is a function of the
/// source bytes and the query text alone.
#[verifier::external_body]
fn engine_captures(text: &Vec<u8>, query_src: &str) -> (r: Option<Vec<Capture>>)
    ensures
        match r {
            Option::Some(v) => asm_engine_captures(text@, query_src@) matches Some(m)
                && caps_model(v@) == m,
            Option::None => asm_engine_captures(text@, query_src@) is None,
        },
{
    let language = Language::new(tree_sitter_asm::LANGUAGE);
    let mut parser = Parser::new();
    parser.set_language(&language).ok()?;
    let tree = parser.parse(text, None)?;
    let query = Query::new(&language, query_src).ok()?;
    let mut cursor = QueryCursor::new();
    let mut caps = cursor.captures(&query, tree.root_node(), text.as_slice());
    let mut out = Vec::new();
    while let Some((m, ix)) = caps.next() {
        let c = &m.captures()[*ix];
        let name = query.capture_names()[c.index as usize].to_string();
        out.push(Capture { start: c.node.start_byte(), end: c.node.end_byte(), name });
    }
    Some(out)
}

/// What classification yields: the engine's capture list for the looked-up
/// grammar, or the error naming what went wrong. Source bytes that are not
/// UTF-8 are rejected before anything is parsed; an unregistered grammar or
/// a failing engine run reports the grammar unavailable.
pub open spec fn spec_classify(
    grammars: Seq<(Seq<char>, Seq<char>)>,
    grammar_id: Seq<char>,
    text: Seq<u8>,
) -> Result<Seq<(int, int, Seq<char>)>, HighlightError> {
    if !is_utf8(text) {
        Result::Err(HighlightError::EncodingError)
    } else {
        match spec_lookup_grammar(grammars, grammar_id) {
            Option::None => Result::Err(HighlightError::GrammarUnavailable),
            Option::Some(query) => match asm_engine_captures(text, query) {
                Option::None => Result::Err(HighlightError::GrammarUnavailable),
                Option::Some(m) => Result::Ok(m),
            },
        }
    }
}

/// Run the grammar's highlight query over the source: the capture list in
/// engine order, or the error.
pub fn classify(registry: &LanguageRegistry, grammar_id: &str, text: &Vec<u8>) -> (r: Result<
    Vec<Capture>,
    HighlightError,
>)
    ensures
        match r {
            Result::Ok(v) => spec_classify(grammars_model(registry.grammars@), grammar_id@, text@)
                matches Ok(m) && caps_model(v@) == m,
            Result::Err(e) => spec_classify(grammars_model(registry.grammars@), grammar_id@, text@)
                == Result::<Seq<(int, int, Seq<char>)>, HighlightError>::Err(e),
        },
{
    if !utf8_check(text) {
        return Err(HighlightError::EncodingError);
    }
    match registry.lookup_grammar(grammar_id) {
        Option::None => Err(HighlightError::GrammarUnavailable),
        Option::Some(query) => match engine_captures(text, query.as_str()) {
            Option::None => Err(HighlightError::GrammarUnavailable),
            Option::Some(v) => Ok(v),
        },
    }
}

/// What a full highlighting pass yields: the document built from the
/// engine's captures, or built with no captures at all where the grammar
/// was unavailable, so the text still renders in the default color.
pub open spec fn spec_highlight(
    grammars: Seq<(Seq<char>, Seq<char>)>,
    grammar_id: Seq<char>,
    text: Seq<u8>,
) -> Seq<Seq<(Seq<u8>, Option<Seq<char>>)>> {
    match spec_classify(grammars, grammar_id, text) {
        Result::Ok(m) => spec_build(text, m),
        Result::Err(_) => spec_build(text, Seq::empty()),
    }
}

/// One full highlighting pass. Source bytes that are not UTF-8 are
/// rejected before parsing; an unavailable grammar falls back to an
/// unhighlighted document rather than failing, so the viewer can always
/// show the text.
pub fn highlight(registry: &LanguageRegistry, grammar_id: &str, text: &Vec<u8>) -> (r: Result<
    HighlightedDocument,
    HighlightError,
>)
    ensures
        !is_utf8(text@) ==> r == Result::<HighlightedDocument, HighlightError>::Err(
            HighlightError::EncodingError,
        ),
        is_utf8(text@) ==> r is Ok,
        r matches Ok(doc) ==> doc_model(doc) == spec_highlight(
            grammars_model(registry.grammars@),
            grammar_id@,
            text@,
        ),
        r matches Ok(doc) ==> (spec_classify(
            grammars_model(registry.grammars@),
            grammar_id@,
            text@,
        ) is Err ==> all_plain(doc_model(doc))),
{
    match classify(registry, grammar_id, text) {
        Result::Ok(caps) => Ok(build_document(text, &caps)),
        Result::Err(e) => match e {
            HighlightError::EncodingError => Err(e),
            HighlightError::GrammarUnavailable => {
                let empty: Vec<Capture> = Vec::new();
                let doc = build_document(text, &empty);
                proof {
                    assert(caps_model(empty@) =~= Seq::<(int, int, Seq<char>)>::empty());
                    lemma_build_no_caps_all_plain(text@);
                }
                Ok(doc)
            },
        },
    }
}

/// A document built with no captures carries no capture name anywhere.
pub proof fn lemma_build_no_caps_all_plain(text: Seq<u8>)
    ensures
        all_plain(spec_build(text, Seq::empty())),
{
    let doc = spec_build(text, Seq::empty());
    assert forall|i: int, j: int| 0 <= i < doc.len() && 0 <= j < doc[i].len() implies (
    #[trigger] doc[i][j].1) is None by {
        let caps = Seq::<(int, int, Seq<char>)>::empty();
        let r = crate::model::spec_line_ranges(text)[i];
        assert(doc[i] == crate::model::spec_line(text, caps, r.0, r.1));
        let bs = crate::model::spec_seg_bounds(caps, r.0, r.1, r.0, r.0 + 1);
        assert(doc[i][j] == crate::model::seg_of_bound(text, caps, r.0, r.1, bs[j]));
        assert(win_at(caps, r.0, r.1, bs[j].0) is None);
    }
}

} // verus!
