use asm_viewer::types::{Capture, HighlightedDocument, HighlightError};
use asm_viewer::segments::{build_document, line_count};
use asm_viewer::colors::dark_theme;
use asm_viewer::registry::{LanguageRegistry, register_asm_extension};
use asm_viewer::engine::{classify, highlight};
use asm_viewer::render::get_lines;

fn cap(start: usize, end: usize, name: &str) -> Capture {
    Capture { start, end, name: name.to_string() }
}

fn doc_of(text: &str, caps: Vec<Capture>) -> HighlightedDocument {
    build_document(&text.as_bytes().to_vec(), &caps)
}

fn seg_strings(doc: &HighlightedDocument) -> Vec<Vec<(String, Option<String>)>> {
    doc.lines
        .iter()
        .map(|l| {
            l.iter()
                .map(|s| (String::from_utf8(s.text.clone()).unwrap(), s.capture.clone()))
                .collect()
        })
        .collect()
}

fn rebuild(doc: &HighlightedDocument) -> Vec<u8> {
    let mut out = Vec::new();
    for (i, line) in doc.lines.iter().enumerate() {
        if i > 0 {
            out.push(b'\n');
        }
        for seg in line {
            out.extend_from_slice(&seg.text);
        }
    }
    out
}

const ASM_CONFIG: &str = "name = \"Assembly\"\ngrammar = \"asm\"\n";

fn asm_registry() -> LanguageRegistry {
    let mut registry = LanguageRegistry::new();
    let ok = register_asm_extension(&mut registry, ASM_CONFIG, tree_sitter_asm::HIGHLIGHTS_QUERY);
    assert!(ok);
    registry
}

#[test]
fn overlap_resolution_innermost_wins() {
    let doc = doc_of("aaaaaaaaaa", vec![cap(0, 10, "keyword"), cap(2, 5, "register")]);
    let segs = seg_strings(&doc);
    assert_eq!(segs.len(), 1);
    assert_eq!(
        segs[0],
        vec![
            ("aa".to_string(), Some("keyword".to_string())),
            ("aaa".to_string(), Some("register".to_string())),
            ("aaaaa".to_string(), Some("keyword".to_string())),
        ]
    );
}

#[test]
fn identical_ranges_earlier_declaration_wins() {
    let doc = doc_of("abc", vec![cap(0, 3, "first"), cap(0, 3, "second")]);
    let segs = seg_strings(&doc);
    assert_eq!(segs[0], vec![("abc".to_string(), Some("first".to_string()))]);
}

#[test]
fn color_totality_over_vocabulary_and_unknown() {
    let theme = dark_theme();
    assert_eq!(theme.resolve_color(&Some("keyword".to_string())), 0x569cd6);
    assert_eq!(theme.resolve_color(&Some("comment".to_string())), 0x6a9955);
    assert_eq!(theme.resolve_color(&Some("register".to_string())), 0x4ec9b0);
    assert_eq!(theme.resolve_color(&Some("number".to_string())), 0xb5cea8);
    assert_eq!(theme.resolve_color(&Some("label".to_string())), 0xdcdcaa);
    assert_eq!(theme.resolve_color(&Some("foo".to_string())), 0xd4d4d4);
    assert_eq!(theme.resolve_color(&None), 0xd4d4d4);
}

#[test]
fn dark_theme_palette() {
    let theme = dark_theme();
    assert_eq!(theme.background, 0x1e1e1e);
    assert_eq!(theme.default_color, 0xd4d4d4);
    assert_eq!(theme.entries.len(), 5);
    assert_eq!(theme.entries[0].name, "label");
    assert_eq!(theme.entries[0].color, 0xdcdcaa);
}

#[test]
fn empty_input_yields_one_empty_line() {
    let doc = doc_of("", vec![]);
    assert_eq!(line_count(&doc), 1);
    assert!(doc.lines[0].is_empty());
}

#[test]
fn label_keyword_scenario() {
    let doc = doc_of("_main:\n  ret\n", vec![cap(0, 5, "label"), cap(9, 12, "keyword")]);
    let segs = seg_strings(&doc);
    assert_eq!(segs.len(), 3);
    assert_eq!(
        segs[0],
        vec![
            ("_main".to_string(), Some("label".to_string())),
            (":".to_string(), None),
        ]
    );
    assert_eq!(
        segs[1],
        vec![
            ("  ".to_string(), None),
            ("ret".to_string(), Some("keyword".to_string())),
        ]
    );
    assert_eq!(segs[2], vec![]);
}

#[test]
fn round_trip_reconstructs_source() {
    let samples: Vec<(&str, Vec<Capture>)> = vec![
        ("", vec![]),
        ("\n", vec![]),
        ("_main:\n  ret\n", vec![cap(0, 5, "label"), cap(9, 12, "keyword")]),
        ("ab\ncd", vec![cap(0, 5, "comment")]),
        ("no newline at end", vec![cap(3, 10, "number")]),
        ("x\n\n\ny", vec![cap(0, 1, "label"), cap(4, 5, "label")]),
    ];
    for (text, caps) in samples {
        let doc = doc_of(text, caps);
        assert_eq!(rebuild(&doc), text.as_bytes().to_vec());
    }
}

#[test]
fn total_coverage_no_gaps_no_overlaps() {
    let text = "_main:\n  stp x29, x30\n  ret\n";
    let doc = doc_of(
        text,
        vec![cap(0, 5, "label"), cap(9, 12, "keyword"), cap(13, 16, "register")],
    );
    let mut offset = 0usize;
    for (i, line) in doc.lines.iter().enumerate() {
        if i > 0 {
            offset += 1;
        }
        for seg in line {
            assert!(!seg.text.is_empty());
            assert_eq!(&text.as_bytes()[offset..offset + seg.text.len()], &seg.text[..]);
            offset += seg.text.len();
        }
    }
    assert_eq!(offset, text.len());
}

#[test]
fn multi_line_capture_is_clipped_per_line() {
    let doc = doc_of("ab\ncd", vec![cap(0, 5, "comment")]);
    let segs = seg_strings(&doc);
    assert_eq!(segs.len(), 2);
    assert_eq!(segs[0], vec![("ab".to_string(), Some("comment".to_string()))]);
    assert_eq!(segs[1], vec![("cd".to_string(), Some("comment".to_string()))]);
}

#[test]
fn malformed_captures_are_dropped() {
    let doc = doc_of("abc", vec![cap(2, 1, "x"), cap(1, 1, "y"), cap(50, 60, "z")]);
    let segs = seg_strings(&doc);
    assert_eq!(segs[0], vec![("abc".to_string(), None)]);
}

#[test]
fn out_of_bounds_capture_is_clipped() {
    let doc = doc_of("abc", vec![cap(1, 99, "w")]);
    let segs = seg_strings(&doc);
    assert_eq!(
        segs[0],
        vec![
            ("a".to_string(), None),
            ("bc".to_string(), Some("w".to_string())),
        ]
    );
}

#[test]
fn build_is_idempotent() {
    let text = "_main:\n  ret\n";
    let caps = vec![cap(0, 5, "label"), cap(9, 12, "keyword")];
    let d1 = doc_of(text, caps.clone());
    let d2 = doc_of(text, caps);
    assert_eq!(d1, d2);
}

#[test]
fn pipeline_is_idempotent() {
    let registry = asm_registry();
    let text = "main:\n  ret\n".as_bytes().to_vec();
    let d1 = highlight(&registry, "asm", &text).unwrap();
    let d2 = highlight(&registry, "asm", &text).unwrap();
    assert_eq!(d1, d2);
}

#[test]
fn grammar_missing_falls_back_to_plain_document() {
    let registry = LanguageRegistry::new();
    let text = "  ret\n".as_bytes().to_vec();
    let doc = highlight(&registry, "asm", &text).unwrap();
    assert_eq!(rebuild(&doc), text);
    for line in &doc.lines {
        for seg in line {
            assert_eq!(seg.capture, None);
        }
    }
}

#[test]
fn classify_reports_unregistered_grammar() {
    let registry = LanguageRegistry::new();
    let text = "ret".as_bytes().to_vec();
    assert_eq!(
        classify(&registry, "asm", &text).unwrap_err(),
        HighlightError::GrammarUnavailable
    );
}

#[test]
fn invalid_utf8_is_rejected_before_parsing() {
    let registry = asm_registry();
    let bytes = vec![0xff, 0xfe, 0x00];
    assert_eq!(
        highlight(&registry, "asm", &bytes).unwrap_err(),
        HighlightError::EncodingError
    );
    assert_eq!(
        classify(&registry, "asm", &bytes).unwrap_err(),
        HighlightError::EncodingError
    );
}

#[test]
fn register_asm_extension_reads_config() {
    let registry = asm_registry();
    assert_eq!(
        registry.lookup_grammar("asm"),
        Some(tree_sitter_asm::HIGHLIGHTS_QUERY.to_string())
    );
    assert_eq!(registry.languages.len(), 1);
    assert_eq!(registry.languages[0].name, "Assembly");
    assert_eq!(registry.languages[0].grammar_id, "asm");
}

#[test]
fn register_asm_extension_rejects_incomplete_config() {
    let mut registry = LanguageRegistry::new();
    let ok = register_asm_extension(&mut registry, "name = \"Assembly\"\n", ";query");
    assert!(!ok);
    assert_eq!(registry.lookup_grammar("asm"), None);
    assert!(registry.grammars.is_empty());
    assert!(registry.languages.is_empty());
}

#[test]
fn engine_produces_real_captures() {
    let registry = asm_registry();
    let text = "main:\n  ret\n".as_bytes().to_vec();
    let doc = highlight(&registry, "asm", &text).unwrap();
    assert_eq!(rebuild(&doc), text);
    let captured = doc
        .lines
        .iter()
        .flat_map(|l| l.iter())
        .any(|s| s.capture.is_some());
    assert!(captured);
}

#[test]
fn get_lines_resolves_colors_per_segment() {
    let theme = dark_theme();
    let doc = doc_of("_main:\n  ret\n", vec![cap(0, 5, "label"), cap(9, 12, "keyword")]);
    let painted = get_lines(&doc, &theme, 0, 3);
    assert_eq!(painted.len(), 3);
    assert_eq!(painted[0].len(), 2);
    assert_eq!(painted[0][0].text, b"_main".to_vec());
    assert_eq!(painted[0][0].color, 0xdcdcaa);
    assert_eq!(painted[0][1].text, b":".to_vec());
    assert_eq!(painted[0][1].color, 0xd4d4d4);
    assert_eq!(painted[1][1].text, b"ret".to_vec());
    assert_eq!(painted[1][1].color, 0x569cd6);
    assert!(painted[2].is_empty());
}

#[test]
fn get_lines_supports_repeated_overlapping_ranges() {
    let theme = dark_theme();
    let doc = doc_of("a\nb\nc", vec![cap(0, 1, "label")]);
    let full = get_lines(&doc, &theme, 0, 3);
    let again = get_lines(&doc, &theme, 0, 3);
    assert_eq!(full, again);
    let window = get_lines(&doc, &theme, 1, 3);
    assert_eq!(window[0], full[1]);
    assert_eq!(window[1], full[2]);
    let empty = get_lines(&doc, &theme, 2, 2);
    assert!(empty.is_empty());
}
