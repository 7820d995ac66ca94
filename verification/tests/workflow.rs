use chonkit::document::DocumentType;
use chonkit::external::{import_step, ImportAction, ImportEvent, ImportOutcome, ImportState};
use chonkit::workflow::{
    embedding_removal_step, image_embedding_step, text_embedding_step, AdditionCounts,
    EmbeddingFailure, ImageEmbeddingAction, ImageEmbeddingEvent, ImageEmbeddingState,
    RemovalAction, RemovalEvent, RemovalState, TextEmbeddingAction, TextEmbeddingEvent,
    TextEmbeddingState,
};

fn looked_up(already_embedded: bool) -> TextEmbeddingEvent {
    TextEmbeddingEvent::LookedUp { document_found: true, collection_found: true, already_embedded }
}

#[test]
fn text_embedding_refuses_existing_embeddings() {
    let (state, action) = text_embedding_step(&TextEmbeddingState::Start, looked_up(true));
    assert_eq!(state, TextEmbeddingState::Done);
    assert_eq!(action, TextEmbeddingAction::Fail(EmbeddingFailure::AlreadyEmbedded));
    let missing = TextEmbeddingEvent::LookedUp { document_found: false, collection_found: true, already_embedded: false };
    assert_eq!(
        text_embedding_step(&TextEmbeddingState::Start, missing).1,
        TextEmbeddingAction::Fail(EmbeddingFailure::SubjectMissing)
    );
}

#[test]
fn text_embedding_from_cache_uses_no_tokens() {
    let (state, action) = text_embedding_step(&TextEmbeddingState::Start, looked_up(false));
    assert_eq!(action, TextEmbeddingAction::ReadCache);
    let (state, action) = text_embedding_step(&state, TextEmbeddingEvent::CacheRead { cached_vectors: Some(7) });
    assert_eq!(action, TextEmbeddingAction::StoreCached(AdditionCounts { tokens_used: Some(0), total_vectors: 7, cache: true }));
    let (state, action) = text_embedding_step(&state, TextEmbeddingEvent::Stored);
    assert_eq!((state, action), (TextEmbeddingState::Done, TextEmbeddingAction::Finish));
}

#[test]
fn text_embedding_reports_the_vectors_stored() {
    let (state, _) = text_embedding_step(&TextEmbeddingState::Start, looked_up(false));
    let (state, action) = text_embedding_step(&state, TextEmbeddingEvent::CacheRead { cached_vectors: None });
    assert_eq!(action, TextEmbeddingAction::ParseAndEmbed);
    let (_, action) = text_embedding_step(&state, TextEmbeddingEvent::Embedded { vectors: 12, tokens_used: Some(300) });
    assert_eq!(action, TextEmbeddingAction::StoreEmbedded(AdditionCounts { tokens_used: Some(300), total_vectors: 12, cache: false }));
    let out_of_order = text_embedding_step(&TextEmbeddingState::Start, TextEmbeddingEvent::Stored);
    assert_eq!(out_of_order.1, TextEmbeddingAction::Fail(EmbeddingFailure::UnexpectedEvent));
}

fn image_lookup(width: u32, height: u32, patch_size: u32, max_input_tokens: usize) -> ImageEmbeddingEvent {
    ImageEmbeddingEvent::LookedUp {
        image_found: true,
        collection_found: true,
        already_embedded: false,
        width,
        height,
        patch_size,
        max_input_tokens,
    }
}

#[test]
fn image_tokens_are_estimated_in_patches() {
    let (state, _) = image_embedding_step(&ImageEmbeddingState::Start, image_lookup(64, 48, 16, 100));
    let (_, action) = image_embedding_step(&state, ImageEmbeddingEvent::CacheRead { hit: false });
    assert_eq!(action, ImageEmbeddingAction::Embed { estimated_tokens: 12 });
    let (state, _) = image_embedding_step(&ImageEmbeddingState::Start, image_lookup(64, 48, 16, 12));
    let (_, action) = image_embedding_step(&state, ImageEmbeddingEvent::CacheRead { hit: false });
    assert_eq!(action, ImageEmbeddingAction::Fail(EmbeddingFailure::TooManyTokens { tokens: 12, limit: 12 }));
    let (state, _) = image_embedding_step(&ImageEmbeddingState::Start, image_lookup(64, 48, 0, 12));
    let (_, action) = image_embedding_step(&state, ImageEmbeddingEvent::CacheRead { hit: false });
    assert_eq!(action, ImageEmbeddingAction::Fail(EmbeddingFailure::UncountableTokens));
}

#[test]
fn image_from_cache_skips_the_token_check() {
    let (state, _) = image_embedding_step(&ImageEmbeddingState::Start, image_lookup(64, 48, 16, 1));
    let (_, action) = image_embedding_step(&state, ImageEmbeddingEvent::CacheRead { hit: true });
    assert_eq!(action, ImageEmbeddingAction::StoreCached(AdditionCounts { tokens_used: None, total_vectors: 1, cache: true }));
}

#[test]
fn removal_reports_what_was_removed() {
    let nothing = RemovalEvent::LookedUp { subject_found: true, collection_found: true, has_embeddings: false };
    assert_eq!(embedding_removal_step(&RemovalState::Start, nothing).1, RemovalAction::Fail(EmbeddingFailure::NothingEmbedded));
    let some = RemovalEvent::LookedUp { subject_found: true, collection_found: true, has_embeddings: true };
    let (state, action) = embedding_removal_step(&RemovalState::Start, some);
    assert_eq!(action, RemovalAction::Delete);
    let (_, action) = embedding_removal_step(&state, RemovalEvent::Deleted { rows_removed: 3, vectors: 9 });
    assert_eq!(action, RemovalAction::StoreReport { rows_removed: 3, vectors_removed: 9 });
}

#[test]
fn import_step_hashes_and_records() {
    let state = ImportState::Fetching { file_id: "f1".to_string() };
    let details = Ok(("remote/a.txt".to_string(), "a.txt".to_string(), DocumentType::Docx));
    let (state, action) = import_step::<u32>(state, ImportEvent::FileDetails(details));
    assert!(matches!(action, ImportAction::Download(ref p) if p == "remote/a.txt"));
    let (state, action) = import_step::<u32>(state, ImportEvent::Downloaded(Ok(b"abc".to_vec())));
    match action {
        ImportAction::LookUpPath { name, ty } => {
            assert_eq!(name, "a.txt");
            assert_eq!(ty, DocumentType::Docx);
        }
        _ => panic!("expected a path lookup"),
    }
    let (state, action) = import_step::<u32>(state, ImportEvent::Existing(None));
    match action {
        ImportAction::Store { name, hash, content, .. } => {
            assert_eq!(name, "a.txt");
            assert_eq!(hash, "ba7816bf8f01cfea414140de5dae2223b00361a396177a9cb410ff61f20015ad");
            assert_eq!(content, b"abc".to_vec());
        }
        _ => panic!("expected a store"),
    }
    let (_, action) = import_step::<u32>(state, ImportEvent::Stored(5));
    assert!(matches!(action, ImportAction::Record(ImportOutcome::Imported(5))));

    let failed = import_step::<u32>(
        ImportState::Fetching { file_id: "f2".to_string() },
        ImportEvent::FileDetails(Err("404".to_string())),
    );
    assert!(matches!(failed.1, ImportAction::Record(ImportOutcome::FileUnavailable { ref file_id, .. }) if file_id == "f2"));
    let dup = import_step::<u32>(
        ImportState::Checking { name: "n".to_string(), ty: DocumentType::Pdf, hash: "h".to_string(), content: vec![] },
        ImportEvent::Existing(Some(9)),
    );
    assert!(matches!(dup.1, ImportAction::Record(ImportOutcome::Duplicate(9))));
}
