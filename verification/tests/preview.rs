use chonkit::error::ChonkitError;
use chonkit::parser::{DocumentPage, DocumentSection, ParseOutput};
use chonkit::preview::{
    merge_pages, preview_chunked_text, preview_parse_output, preview_sections, section_chunks,
    DocumentUpload, ParseOutputPreview, ParsedDocumentPage, ParsedDocumentSection,
};
use chonkit::document::DocumentType;
use chonkit::token::{TokenCount, Tokenizer};

fn tokenizer() -> Tokenizer {
    Tokenizer::new().unwrap()
}

#[test]
fn tokenizer_counts_both_vocabularies() {
    let t = tokenizer();
    let c = t.count("hello world").unwrap();
    assert_eq!((c.cl100k, c.o200k), (2, 2));
    let empty = t.count("").unwrap();
    assert_eq!((empty.cl100k, empty.o200k), (0, 0));
    let special = t.count("<|endoftext|>").unwrap();
    assert_eq!((special.cl100k, special.o200k), (1, 1));
}

#[test]
fn token_counts_add_up() {
    let mut total = TokenCount::default();
    total.add_assign(TokenCount::new(2, 3));
    total.add_assign(TokenCount::new(5, 7));
    assert_eq!(total, TokenCount::new(7, 10));
}

#[test]
fn merged_pages_end_in_line_breaks() {
    let pages = vec![
        ParsedDocumentPage { content: "one".to_string(), number: 1 },
        ParsedDocumentPage { content: "two".to_string(), number: 2 },
    ];
    assert_eq!(merge_pages(&pages), "one\ntwo\n");
    assert_eq!(merge_pages(&vec![]), "");
    let sections = vec![
        DocumentSection { pages: vec![DocumentPage { content: "a".to_string(), number: 3 }] },
        DocumentSection { pages: vec![] },
    ];
    assert_eq!(section_chunks(&sections), vec!["a\n".to_string(), String::new()]);
}

#[test]
fn parse_preview_of_text() {
    let t = tokenizer();
    let p = preview_parse_output(&t, ParseOutput::String("hello world".to_string())).unwrap();
    match p.content {
        ParseOutputPreview::String(s) => assert_eq!(s, "hello world"),
        _ => panic!("expected text"),
    }
    assert_eq!(p.total_tokens, TokenCount::new(2, 2));
}

#[test]
fn parse_preview_of_sections_sums_pages() {
    let t = tokenizer();
    let sections = vec![
        DocumentSection {
            pages: vec![
                DocumentPage { content: "hello world".to_string(), number: 1 },
                DocumentPage { content: "hello".to_string(), number: 2 },
            ],
        },
        DocumentSection { pages: vec![DocumentPage { content: "world".to_string(), number: 7 }] },
    ];
    let expected = {
        let mut total = TokenCount::default();
        for s in ["hello world", "hello", "world"] {
            total.add_assign(t.count(s).unwrap());
        }
        total
    };
    let p = preview_parse_output(&t, ParseOutput::Sections(sections)).unwrap();
    assert_eq!(p.total_tokens, expected);
    match p.content {
        ParseOutputPreview::Sections(s) => {
            assert_eq!(s.len(), 2);
            assert_eq!(s[0].pages[1].content, "hello");
            assert_eq!(s[1].pages[0].number, 7);
        }
        _ => panic!("expected sections"),
    }
}

#[test]
fn parse_preview_refuses_empty_output() {
    let t = tokenizer();
    assert!(matches!(
        preview_parse_output(&t, ParseOutput::String("  \n".to_string())),
        Err(ChonkitError::InvalidFile(_))
    ));
    assert!(matches!(
        preview_parse_output(&t, ParseOutput::Sections(vec![])),
        Err(ChonkitError::InvalidFile(_))
    ));
}

#[test]
fn chunk_preview_counts_each_chunk() {
    let t = tokenizer();
    let pre = TokenCount::new(9, 9);
    let p = preview_chunked_text(&t, Some(vec!["hello world".to_string(), "hello".to_string()]), pre).unwrap();
    assert_eq!(p.chunks.len(), 2);
    assert_eq!(p.chunks[0].chunk, "hello world");
    assert_eq!(p.chunks[0].token_count, TokenCount::new(2, 2));
    let hello = t.count("hello").unwrap();
    assert_eq!(p.total_tokens_post, TokenCount::new(2 + hello.cl100k, 2 + hello.o200k));
    assert_eq!(p.total_tokens_pre, pre);
}

#[test]
fn chunk_preview_needs_a_chunker_and_chunks() {
    let t = tokenizer();
    match preview_chunked_text(&t, None, TokenCount::default()) {
        Err(ChonkitError::InvalidParameter(m)) => assert_eq!(
            m,
            "Chunking configuration must be specified when previewing with generic parser"
        ),
        other => panic!("unexpected {other:?}"),
    }
    match preview_chunked_text(&t, Some(vec![]), TokenCount::default()) {
        Err(ChonkitError::Chunks(m)) => assert_eq!(m, "chunks cannot be empty"),
        other => panic!("unexpected {other:?}"),
    }
}

#[test]
fn chunk_preview_of_sections_merges_pages() {
    let t = tokenizer();
    let sections = vec![ParsedDocumentSection {
        pages: vec![
            ParsedDocumentPage { content: "hello".to_string(), number: 1 },
            ParsedDocumentPage { content: "world".to_string(), number: 2 },
        ],
    }];
    let p = preview_sections(&t, &sections).unwrap();
    assert_eq!(p.chunks.len(), 1);
    assert_eq!(p.chunks[0].chunk, "hello\nworld\n");
    assert_eq!(p.chunks[0].token_count, t.count("hello\nworld\n").unwrap());
    assert_eq!(p.total_tokens_pre, p.total_tokens_post);
    assert_eq!(p.total_tokens_pre, p.chunks[0].token_count);
}

#[test]
fn document_upload_trims_name() {
    let file = b"content";
    let mut upload = DocumentUpload::new("  notes.txt \n".to_string(), DocumentType::Pdf, file);
    assert!(upload.validify().is_ok());
    assert_eq!(upload.name, "notes.txt");
    let mut blank = DocumentUpload::new("   ".to_string(), DocumentType::Pdf, file);
    let e = blank.validify().unwrap_err();
    assert_eq!(e.errors[0].code, "length");
    assert_eq!(e.errors[0].message, "Document name cannot be empty.");
}
