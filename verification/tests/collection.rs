use chonkit::collection::{group_collection_rows, Collection, CollectionDocumentRow};
use chonkit::external::Timestamp;

fn collection(id: u128, name: &str) -> Collection {
    Collection {
        id,
        name: name.to_string(),
        model: "text-embedding-3-small".to_string(),
        embedder: "openai".to_string(),
        provider: "qdrant".to_string(),
        created_at: Timestamp { secs: 1, nanos: 0 },
        updated_at: Timestamp { secs: 2, nanos: 0 },
    }
}

fn row(id: u128, name: &str, doc: Option<(u128, &str)>, count: i64) -> CollectionDocumentRow {
    CollectionDocumentRow {
        collection: collection(id, name),
        document_id: doc.map(|d| d.0),
        document_name: doc.map(|d| d.1.to_string()),
        document_count: count,
    }
}

#[test]
fn rows_group_by_collection_in_order_of_first_appearance() {
    let rows = vec![
        row(7, "Alpha", Some((100, "a.txt")), 2),
        row(9, "Beta", None, 0),
        row(7, "Alpha", Some((101, "b.pdf")), 2),
        row(11, "Gamma", Some((200, "c.md")), 1),
    ];
    let displays = group_collection_rows(&rows);
    assert_eq!(displays.len(), 3);

    assert_eq!(displays[0].collection.id, 7);
    assert_eq!(displays[0].collection.name, "Alpha");
    assert_eq!(displays[0].total_documents, 2);
    let alpha: Vec<(u128, &str)> =
        displays[0].documents.iter().map(|d| (d.id, d.name.as_str())).collect();
    assert_eq!(alpha, vec![(100, "a.txt"), (101, "b.pdf")]);

    assert_eq!(displays[1].collection.id, 9);
    assert_eq!(displays[1].total_documents, 0);
    assert!(displays[1].documents.is_empty());

    assert_eq!(displays[2].collection.id, 11);
    assert_eq!(displays[2].total_documents, 1);
    assert_eq!(displays[2].documents.len(), 1);
    assert_eq!(displays[2].documents[0].name, "c.md");
}

#[test]
fn later_rows_without_a_document_name_add_nothing() {
    let mut unnamed = row(3, "Docs", None, 4);
    unnamed.document_id = Some(55);
    let rows = vec![row(3, "Docs", Some((54, "x.docx")), 4), unnamed];
    let displays = group_collection_rows(&rows);
    assert_eq!(displays.len(), 1);
    assert_eq!(displays[0].total_documents, 4);
    assert_eq!(displays[0].documents.len(), 1);
    assert_eq!(displays[0].documents[0].id, 54);
}

#[test]
fn no_rows_give_no_displays() {
    let rows: Vec<CollectionDocumentRow> = Vec::new();
    assert!(group_collection_rows(&rows).is_empty());
}
