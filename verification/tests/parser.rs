use chonkit::document::{DocumentType, TextDocumentType};
use chonkit::error::ChonkitError;
use chonkit::parser::{DocumentPage, DocumentSection,
    parse_images, parse_text, stored_image_positions, DocumentContent, PageRange, ParseConfig,
    ParseOutput, SectionParseConfig, StringParseConfig,
};
use chonkit::parser_docx::{
    extract_paragraph, extract_table, parse as parse_docx, DocxBlock, DocxCellContent, DocxParagraph,
    DocxParagraphChild, DocxRun, DocxTable,
};
use chonkit::parser_excel::sheets_to_text;
use chonkit::parser_pdf::{filter_page_text, compile_filters, parse_pdf_images, parse_pdf_to_sections, parse_pdf_to_string, PdfImageObject};

fn pages() -> Vec<String> {
    vec!["  a \nb".to_string(), "c".to_string(), "d\ne".to_string()]
}

fn config(start: usize, end: usize, range: bool) -> StringParseConfig {
    let c = StringParseConfig::new(start, end);
    if range { c.use_range() } else { c }
}

#[test]
fn pdf_string_reads_all_pages_trimmed_lines() {
    assert_eq!(parse_pdf_to_string(&config(0, 0, false), &pages()), "a\nb\nc\nd\ne\n");
}

#[test]
fn pdf_string_skips_from_start_and_end() {
    assert_eq!(parse_pdf_to_string(&config(1, 0, false), &pages()), "c\nd\ne\n");
    assert_eq!(parse_pdf_to_string(&config(0, 1, false), &pages()), "a\nb\nc\n");
    assert_eq!(parse_pdf_to_string(&config(2, 1, false), &pages()), "");
}

#[test]
fn pdf_string_range_stops_before_end_page() {
    assert_eq!(parse_pdf_to_string(&config(1, 3, true), &pages()), "a\nb\nc\n");
    assert_eq!(parse_pdf_to_string(&config(2, 3, true), &pages()), "c\n");
    assert_eq!(parse_pdf_to_string(&config(1, 1, true), &pages()), "");
}

#[test]
fn pdf_string_filters_lines() {
    let c = config(0, 0, false).with_filter("^b$").with_filter("(");
    assert_eq!(parse_pdf_to_string(&c, &pages()), "a\nc\nd\ne\n");
    let filters = compile_filters(&vec!["^d".to_string()]);
    assert_eq!(filter_page_text(&filters, " d1 \n x "), "x\n");
}

#[test]
fn pdf_sections_number_pages_from_one() {
    let ranges = vec![PageRange { start: 1, end: 2 }, PageRange { start: 3, end: 9 }];
    let out = parse_pdf_to_sections(&ranges, &vec![], &pages());
    assert_eq!(out.len(), 2);
    assert_eq!(out[0].pages.len(), 2);
    assert_eq!(out[0].pages[0].content, "a\nb\n");
    assert_eq!(out[0].pages[0].number, 1);
    assert_eq!(out[0].pages[1].content, "c\n");
    assert_eq!(out[0].pages[1].number, 2);
    assert_eq!(out[1].pages.len(), 1);
    assert_eq!(out[1].pages[0].number, 3);
}

#[test]
fn parse_text_plain_bytes() {
    let out = parse_text(
        ParseConfig::default(),
        DocumentType::Text(TextDocumentType::Txt),
        &DocumentContent::Bytes(b"hello\nworld".to_vec()),
    )
    .unwrap();
    match out {
        ParseOutput::String(s) => assert_eq!(s, "hello\nworld"),
        _ => panic!("expected text"),
    }
}

#[test]
fn parse_text_invalid_utf8_is_replaced() {
    let out = parse_text(
        ParseConfig::default(),
        DocumentType::Text(TextDocumentType::Md),
        &DocumentContent::Bytes(vec![b'a', 0xff, b'b']),
    )
    .unwrap();
    match out {
        ParseOutput::String(s) => assert_eq!(s, "a\u{fffd}b"),
        _ => panic!("expected text"),
    }
}

#[test]
fn parse_text_blank_output_is_refused() {
    let err = parse_text(
        ParseConfig::default(),
        DocumentType::Text(TextDocumentType::Txt),
        &DocumentContent::Bytes(b" \n\t ".to_vec()),
    )
    .unwrap_err();
    assert!(matches!(err, ChonkitError::InvalidFile(_)));
}

#[test]
fn parse_text_invalid_config() {
    let err = parse_text(
        ParseConfig::String(StringParseConfig::new(0, 0).use_range()),
        DocumentType::Pdf,
        &DocumentContent::PdfPages(pages()),
    )
    .unwrap_err();
    match err {
        ChonkitError::Validation(e) => {
            let codes: Vec<&str> = e.errors.iter().map(|e| e.code.as_str()).collect();
            assert_eq!(codes, ["range=true;start>=end", "range=true;start=0"]);
        }
        other => panic!("unexpected {other:?}"),
    }
    let bad_range = SectionParseConfig { sections: vec![PageRange { start: 0, end: 0 }, PageRange { start: 3, end: 2 }], filters: vec![] };
    match parse_text(ParseConfig::Section(bad_range), DocumentType::Pdf, &DocumentContent::PdfPages(pages())) {
        Err(ChonkitError::Validation(e)) => {
            let codes: Vec<&str> = e.errors.iter().map(|e| e.code.as_str()).collect();
            assert_eq!(codes, ["range", "start>end"]);
        }
        other => panic!("unexpected {other:?}"),
    }
}

#[test]
fn parse_text_sections() {
    let cfg = SectionParseConfig { sections: vec![PageRange { start: 2, end: 2 }], filters: vec![] };
    match parse_text(ParseConfig::Section(cfg), DocumentType::Pdf, &DocumentContent::PdfPages(pages())).unwrap() {
        ParseOutput::Sections(s) => {
            assert_eq!(s.len(), 1);
            assert_eq!(s[0].pages[0].content, "c\n");
            assert_eq!(s[0].pages[0].number, 2);
        }
        _ => panic!("expected sections"),
    }
    let none = SectionParseConfig { sections: vec![], filters: vec![] };
    assert!(matches!(
        parse_text(ParseConfig::Section(none), DocumentType::Pdf, &DocumentContent::PdfPages(pages())),
        Err(ChonkitError::InvalidFile(_))
    ));
}

#[test]
fn parse_text_sections_unsupported_type() {
    let cfg = SectionParseConfig { sections: vec![PageRange { start: 1, end: 1 }], filters: vec![] };
    match parse_text(ParseConfig::Section(cfg), DocumentType::Docx, &DocumentContent::Docx(vec![])) {
        Err(ChonkitError::InvalidParameter(m)) => {
            assert_eq!(m, "Sectioned parsing not yet supported for document type 'docx'")
        }
        other => panic!("unexpected {other:?}"),
    }
}

#[test]
fn parse_images_numbers_objects_per_page() {
    let obj = |w: u32| PdfImageObject { image: Some((vec![200u8; (w * w * 4) as usize], w, w)) };
    let pages = vec![
        vec![obj(1), PdfImageObject { image: None }, obj(2), obj(3)],
        vec![obj(4)],
    ];
    let skip = vec![(0usize, 1usize)];
    let images = parse_pdf_images(&pages, &skip).unwrap();
    let found: Vec<(Option<usize>, Option<usize>, u32)> =
        images.iter().map(|i| (i.page_number, i.image_number, i.image.width)).collect();
    assert_eq!(
        found,
        vec![(Some(0), Some(0), 1), (Some(0), Some(2), 2), (Some(0), Some(3), 3), (Some(1), Some(0), 4)]
    );
    let webp = chonkit::image::ImageData::from_raw_bytes(&images[1].image.bytes).unwrap();
    assert_eq!(webp.format, chonkit::image::ImageFormat::WebP);
    assert_eq!((webp.width, webp.height), (2, 2));
    let none_skipped = parse_pdf_images(&pages, &vec![]).unwrap();
    let numbers: Vec<Option<usize>> = none_skipped.iter().map(|i| i.image_number).collect();
    assert_eq!(numbers, vec![Some(0), Some(1), Some(2), Some(0)]);

    let via_entry = parse_images(DocumentType::Pdf, &pages, &vec![]).unwrap();
    assert_eq!(via_entry.len(), 4);
    let refused = vec![vec![PdfImageObject { image: Some((vec![], 0, 0)) }]];
    assert!(matches!(parse_images(DocumentType::Pdf, &refused, &vec![]), Err(ChonkitError::Image(_))));
    match parse_images(DocumentType::Excel, &pages, &vec![]) {
        Err(ChonkitError::InvalidParameter(m)) => {
            assert_eq!(m, "Image parsing not yet supported for document type 'xlsx'")
        }
        Err(e) => panic!("unexpected {e:?}"),
        Ok(_) => panic!("expected an error"),
    }
}

#[test]
fn stored_positions_skip_incomplete_and_repeats() {
    let images = vec![(Some(1), Some(2)), (None, Some(1)), (Some(1), Some(2)), (Some(0), Some(0)), (Some(3), None)];
    let mut pos = stored_image_positions(&images);
    pos.sort();
    assert_eq!(pos, vec![(0, 0), (1, 2)]);
}

fn sheet(rows: &[&[&str]]) -> Vec<Vec<String>> {
    rows.iter().map(|r| r.iter().map(|c| c.to_string()).collect()).collect()
}

#[test]
fn excel_sheets_to_csv() {
    let sheets = vec![("S1".to_string(), sheet(&[&["h1", "h2"], &["a", "b"], &["c", "d"]]))];
    assert_eq!(sheets_to_text(&config(0, 0, false), &sheets).unwrap(), "h1,h2\na,b\nc,d\n");
    assert_eq!(sheets_to_text(&config(0, 1, false), &sheets).unwrap(), "h1,h2\na,b\n");
    assert_eq!(sheets_to_text(&config(1, 0, false), &sheets).unwrap(), "h1,h2\nc,d\n");
    assert_eq!(sheets_to_text(&config(0, 0, true), &sheets).unwrap(), "h1,h2\na,b\n");
    assert_eq!(sheets_to_text(&config(1, 1, true), &sheets).unwrap(), "h1,h2\nc,d\n");
}

#[test]
fn excel_sheets_joined_and_filtered() {
    let sheets = vec![
        ("A".to_string(), sheet(&[&["x"], &["1"]])),
        ("B".to_string(), sheet(&[&["y"]])),
    ];
    assert_eq!(sheets_to_text(&config(0, 0, false), &sheets).unwrap(), "x\n1\n\n\ny\n\n");
    let drop_ones = config(0, 0, false).with_filter("^1$");
    assert_eq!(sheets_to_text(&drop_ones, &sheets).unwrap(), "x\n\n\ny\n\n");
    let broken_only = config(0, 0, false).with_filter("(");
    assert_eq!(sheets_to_text(&broken_only, &sheets).unwrap(), "x\n1\n\n\ny\n\n");
    let empty = vec![("E".to_string(), Vec::new())];
    assert!(matches!(sheets_to_text(&config(0, 0, false), &empty), Err(ChonkitError::InvalidFile(_))));
}

fn run(texts: &[&str]) -> DocxRun {
    DocxRun { texts: texts.iter().map(|t| Some(t.to_string())).collect() }
}

#[test]
fn docx_paragraph_text_pieces() {
    let p = DocxParagraph {
        children: vec![
            DocxParagraphChild::Run(run(&["Hello", ","])),
            DocxParagraphChild::Other,
            DocxParagraphChild::Hyperlink(vec![Some(run(&[" world"])), None]),
        ],
    };
    assert_eq!(extract_paragraph(&p), vec!["Hello", ",", " world"]);
}

#[test]
fn docx_table_as_markdown() {
    let cell = |t: &str| vec![DocxCellContent::Paragraph(DocxParagraph { children: vec![DocxParagraphChild::Run(run(&[t]))] })];
    let table = DocxTable { rows: vec![vec![cell("a"), cell("bc")], vec![vec![], cell("d")]] };
    assert_eq!(extract_table(&table), "| a | bc |\n|---|----|\n|| d |\n||---|\n");
}

#[test]
fn docx_document_text() {
    let blocks = vec![
        DocxBlock::Paragraph(DocxParagraph { children: vec![DocxParagraphChild::Run(run(&["One", "Two"]))] }),
        DocxBlock::Other,
        DocxBlock::Table(DocxTable { rows: vec![] }),
    ];
    assert_eq!(parse_docx(&blocks), "One\nTwo\n\n");
    let out = parse_text(ParseConfig::default(), DocumentType::Docx, &DocumentContent::Docx(blocks)).unwrap();
    assert!(matches!(out, ParseOutput::String(s) if s == "One\nTwo\n\n"));
}

fn docx_bytes() -> Vec<u8> {
    let table = docx_rs::Table::new(vec![docx_rs::TableRow::new(vec![
        docx_rs::TableCell::new().add_paragraph(docx_rs::Paragraph::new().add_run(docx_rs::Run::new().add_text("a"))),
        docx_rs::TableCell::new().add_paragraph(docx_rs::Paragraph::new().add_run(docx_rs::Run::new().add_text("bc"))),
    ])]);
    let docx = docx_rs::Docx::new()
        .add_paragraph(docx_rs::Paragraph::new().add_run(docx_rs::Run::new().add_text("Hello").add_text(" world")))
        .add_table(table);
    let mut out = std::io::Cursor::new(Vec::new());
    docx.build().pack(&mut out).unwrap();
    out.into_inner()
}

#[test]
fn docx_bytes_are_read_and_parsed() {
    let doc = docx_rs::read_docx(&docx_bytes()).unwrap();
    let blocks = chonkit::parser_docx::read_docx(doc);
    assert_eq!(blocks.len(), 2);
    assert_eq!(parse_docx(&blocks), "Hello\n world\n| a | bc |\n|---|----|\n\n");
}

#[test]
fn parse_outputs_compare_text_and_pages() {
    let page = |c: &str, n: usize| DocumentPage { content: c.to_string(), number: n };
    assert!(ParseOutput::String("a".to_string()) == ParseOutput::String("a".to_string()));
    assert!(ParseOutput::String("a".to_string()) != ParseOutput::String("b".to_string()));
    let s1 = ParseOutput::Sections(vec![DocumentSection { pages: vec![page("x", 1)] }]);
    let s2 = ParseOutput::Sections(vec![DocumentSection { pages: vec![page("x", 1)] }]);
    let s3 = ParseOutput::Sections(vec![DocumentSection { pages: vec![page("x", 2)] }]);
    assert!(s1 == s2);
    assert!(s1 != s3);
    assert!(s1 != ParseOutput::String("x".to_string()));
}

#[test]
fn parse_text_drops_lines_matching_a_filter() {
    let out = parse_text(
        ParseConfig::String(StringParseConfig::new(0, 0).with_filter("^#")),
        DocumentType::Text(TextDocumentType::Md),
        &DocumentContent::Bytes(b"# title\nbody\n# more\nend".to_vec()),
    )
    .unwrap();
    match out {
        ParseOutput::String(s) => assert_eq!(s, "body\nend\n"),
        _ => panic!("expected text"),
    }
}

#[test]
fn pdf_string_end_past_16_bits_omits_every_page() {
    assert_eq!(parse_pdf_to_string(&config(0, 65536, false), &pages()), "");
}
