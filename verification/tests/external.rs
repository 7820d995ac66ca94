use chonkit::vector::CollectionLookup;
use chonkit::collection::CreateCollectionPayload;
use chonkit::external::{
    OutdatedDocument,
    outdated_documents, str_ends_with, ExternalAuthorizationService, ExternalFileTime, ImportFailure,
    ImportOutcome, ImportResult, LocalDocumentTime, Timestamp,
};
use chonkit::vector::{CreateCollectionPayload as VectorCollectionPayload, SearchPayload};

fn ts(secs: i64, nanos: u32) -> Timestamp {
    Timestamp { secs, nanos }
}

#[test]
fn import_results_account_for_every_file() {
    let mut r: ImportResult<&str> = ImportResult::default();
    r.record(ImportOutcome::Imported("doc1"));
    r.record(ImportOutcome::FileUnavailable { file_id: "f2".to_string(), error: "404".to_string() });
    r.record(ImportOutcome::DownloadFailed {
        path: "p3".to_string(),
        name: "n3".to_string(),
        error: "timeout".to_string(),
    });
    r.record(ImportOutcome::Duplicate("doc4"));
    let debug = format!("{r:?}");
    assert!(debug.contains("doc1"));
    assert!(debug.contains("Unknown"));
    assert!(debug.contains("timeout"));
    assert!(debug.contains("doc4"));
}

#[test]
fn import_failure_fields() {
    let f = ImportFailure::new("id".to_string(), "name".to_string(), "err".to_string());
    assert_eq!((f.file_id(), f.file_name(), f.error()), ("id", "name", "err"));
}

#[test]
fn ends_with_suffix() {
    assert!(str_ends_with("/data/docs/a.pdf", "docs/a.pdf"));
    assert!(str_ends_with("abc", ""));
    assert!(!str_ends_with("a.pdf", "/data/a.pdf"));
    assert!(!str_ends_with("a.pdf", "b.pdf"));
}

#[test]
fn outdated_documents_are_found_by_path() {
    let locals = vec![
        LocalDocumentTime { id: 1, path: "/store/a.pdf".to_string(), updated_at: ts(100, 0) },
        LocalDocumentTime { id: 2, path: "/store/b.pdf".to_string(), updated_at: ts(100, 5) },
        LocalDocumentTime { id: 3, path: "/store/c.pdf".to_string(), updated_at: ts(100, 0) },
        LocalDocumentTime { id: 4, path: "/store/d.pdf".to_string(), updated_at: ts(100, 0) },
    ];
    let externals = vec![
        ExternalFileTime { external_id: "ea".to_string(), name: "a".to_string(), local_path: "a.pdf".to_string(), modified_at: Some(ts(101, 0)) },
        ExternalFileTime { external_id: "eb".to_string(), name: "b".to_string(), local_path: "b.pdf".to_string(), modified_at: Some(ts(100, 5)) },
        ExternalFileTime { external_id: "ec".to_string(), name: "c".to_string(), local_path: "c.pdf".to_string(), modified_at: None },
        ExternalFileTime { external_id: "ea2".to_string(), name: "a2".to_string(), local_path: "a.pdf".to_string(), modified_at: Some(ts(200, 0)) },
    ];
    let out = outdated_documents(&locals, &externals);
    assert_eq!(out.len(), 1);
    assert_eq!(out[0].id, 1);
    assert_eq!(out[0].external_id, "ea");
    assert_eq!(out[0].name, "a");
    assert_eq!(out[0].local_updated_at, ts(100, 0));
    assert_eq!(out[0].external_updated_at, ts(101, 0));
}

#[test]
fn authorization_service_keeps_api() {
    let s = ExternalAuthorizationService::new("api");
    assert_eq!(*s.api(), "api");
}

fn payload(name: &str, groups: Option<Vec<String>>) -> CreateCollectionPayload {
    CreateCollectionPayload {
        name: name.to_string(),
        model: "m".to_string(),
        vector_provider: "qdrant".to_string(),
        embedding_provider: "openai".to_string(),
        groups,
    }
}

fn codes(e: chonkit::validation::ValidationErrors) -> Vec<String> {
    e.errors.into_iter().map(|e| e.code).collect()
}

#[test]
fn collection_payload_rules() {
    let mut p = payload("  My_Collection ", None);
    assert!(p.validify().is_ok());
    assert_eq!(p.name, "My_Collection");
    assert_eq!(codes(payload("my-col", None).validify().unwrap_err()), ["collection_name", "collection_name"]);
    assert_eq!(codes(payload("   ", None).validify().unwrap_err()), ["length"]);
    assert_eq!(codes(payload("_Col", None).validify().unwrap_err()), ["collection_name"]);
    assert_eq!(codes(payload("Col", Some(vec![])).validify().unwrap_err()), ["length"]);
    assert!(payload("Col", Some(vec!["admins".to_string()])).validify().is_ok());
}

#[test]
fn vector_collection_payload_rules() {
    let mut p = VectorCollectionPayload {
        name: " Docs ".to_string(),
        model: "m".to_string(),
        vector_provider: "v".to_string(),
        embedding_provider: "e".to_string(),
    };
    assert!(p.validify().is_ok());
    assert_eq!(p.name, "Docs");
    p.name = "docs".to_string();
    assert_eq!(codes(p.validify().unwrap_err()), ["collection_name"]);
}

fn search(id: Option<u128>, name: Option<&str>, provider: Option<&str>, limit: Option<u32>) -> SearchPayload {
    SearchPayload {
        query: " what ".to_string(),
        collection_id: id,
        collection_name: name.map(|s| s.to_string()),
        provider: provider.map(|s| s.to_string()),
        limit,
    }
}

#[test]
fn search_payload_rules() {
    let mut s = search(Some(7), None, None, Some(5));
    assert!(s.validify().is_ok());
    assert_eq!(s.query, "what");
    let mut s = search(None, Some(" Docs "), Some("qdrant"), None);
    assert!(s.validify().is_ok());
    assert_eq!(s.collection_name.as_deref(), Some("Docs"));
    assert_eq!(codes(search(None, None, None, None).validify().unwrap_err()), ["either_id_or_name_and_provider"]);
    assert_eq!(codes(search(None, Some("Docs"), None, None).validify().unwrap_err()), ["name_and_provider"]);
    assert_eq!(codes(search(None, None, Some("qdrant"), Some(0)).validify().unwrap_err()), ["range", "name_and_provider"]);
    assert_eq!(codes(search(Some(1), Some("  "), None, None).validify().unwrap_err()), ["length"]);
}

#[test]
fn search_payload_finds_its_collection() {
    assert!(matches!(search(Some(9), Some("Docs"), None, None).collection_lookup(), Some(CollectionLookup::Id(9))));
    match search(None, Some("Docs"), Some("qdrant"), None).collection_lookup() {
        Some(CollectionLookup::Name { name, provider }) => assert_eq!((name.as_str(), provider.as_str()), ("Docs", "qdrant")),
        other => panic!("unexpected {other:?}"),
    }
    assert!(search(None, Some("Docs"), None, None).collection_lookup().is_none());
    assert_eq!(search(None, None, None, None).result_limit(), 5);
    assert_eq!(search(None, None, None, Some(12)).result_limit(), 12);
}

#[test]
fn outdated_document_fields() {
    let d = OutdatedDocument::new(7, "ext".to_string(), "name".to_string(), ts(1, 2), ts(3, 4));
    assert_eq!((d.id, d.external_id.as_str(), d.name.as_str()), (7, "ext", "name"));
    assert_eq!((d.local_updated_at, d.external_updated_at), (ts(1, 2), ts(3, 4)));
}
