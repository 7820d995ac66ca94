use chonkit::document::{sha256, DocumentType, TextDocumentType};
use chonkit::error::ChonkitError;

#[test]
fn document_type_from_extensions_and_mime_types() {
    let cases = [
        ("xlsx", DocumentType::Excel),
        ("application/vnd.google-apps.spreadsheet", DocumentType::Excel),
        ("md", DocumentType::Text(TextDocumentType::Md)),
        ("xml", DocumentType::Text(TextDocumentType::Xml)),
        ("json", DocumentType::Text(TextDocumentType::Json)),
        ("application/json", DocumentType::Text(TextDocumentType::Json)),
        ("csv", DocumentType::Text(TextDocumentType::Csv)),
        ("txt", DocumentType::Text(TextDocumentType::Txt)),
        ("text/plain", DocumentType::Text(TextDocumentType::Txt)),
        ("pdf", DocumentType::Pdf),
        ("application/pdf", DocumentType::Pdf),
        ("docx", DocumentType::Docx),
        ("application/vnd.google-apps.document", DocumentType::Docx),
        (
            "application/vnd.openxmlformats-officedocument.wordprocessingml.document",
            DocumentType::Docx,
        ),
    ];
    for (value, expected) in cases {
        assert_eq!(DocumentType::try_from_str(value).unwrap(), expected, "{value}");
    }
}

#[test]
fn document_type_unsupported_names_the_value() {
    match DocumentType::try_from_str("exe") {
        Err(ChonkitError::UnsupportedFileType(m)) => assert_eq!(m, "exe"),
        other => panic!("unexpected {other:?}"),
    }
    assert!(DocumentType::try_from_str("PDF").is_err());
}

#[test]
fn document_type_from_file_name_uses_last_extension() {
    assert_eq!(DocumentType::try_from_file_name("report.pdf").unwrap(), DocumentType::Pdf);
    assert_eq!(
        DocumentType::try_from_file_name("archive.tar.md").unwrap(),
        DocumentType::Text(TextDocumentType::Md)
    );
    match DocumentType::try_from_file_name("README") {
        Err(ChonkitError::UnsupportedFileType(m)) => assert_eq!(m, "README - missing extension"),
        other => panic!("unexpected {other:?}"),
    }
    assert!(DocumentType::try_from_file_name("image.png").is_err());
}

#[test]
fn document_type_names_round_trip() {
    let all = [
        DocumentType::Text(TextDocumentType::Md),
        DocumentType::Text(TextDocumentType::Xml),
        DocumentType::Text(TextDocumentType::Json),
        DocumentType::Text(TextDocumentType::Csv),
        DocumentType::Text(TextDocumentType::Txt),
        DocumentType::Docx,
        DocumentType::Pdf,
        DocumentType::Excel,
    ];
    for ty in all {
        assert_eq!(DocumentType::try_from_str(ty.as_str()).unwrap(), ty);
    }
    assert_eq!(DocumentType::Excel.as_str(), "xlsx");
}

#[test]
fn sha256_of_known_inputs() {
    assert_eq!(
        sha256(b"abc"),
        "ba7816bf8f01cfea414140de5dae2223b00361a396177a9cb410ff61f20015ad"
    );
    assert_eq!(
        sha256(b""),
        "e3b0c44298fc1c149afbf4c8996fb92427ae41e4649b934ca495991b7852b855"
    );
    assert_eq!(sha256(b"chonkit").len(), 64);
}
