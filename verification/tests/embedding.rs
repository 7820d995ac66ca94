use chonkit::embedders::{azure_embeddings_url, model_details, openai_embeddings_url};
use chonkit::embedding::embeddings_summary;
use chonkit::parser::StringParseConfig;
use chonkit::embedders::{error_body_kind, ErrorBody};
use chonkit::embedding::collection_size;
use chonkit::cache::{ImageEmbeddingCacheKey, TextEmbeddingCacheKey};
use chonkit::chunk::{ChunkConfig, ChunkedDocument};
use chonkit::document::sha256;
use chonkit::embedders::{
    check_embedding_input, model_embeddings_url, multimodal_request, openai_models, EmbeddingError,
    EmbeddingInput, EmbeddingMessage, EmbeddingModel,
};
use chonkit::embedding::{
    chunker_for, embedding_report_kind, image_embedding_model, image_tokens_within_limit,
    text_embedding_model, texts_to_embed, EmbeddingReportKind, EmbeddingSource,
};
use chonkit::error::ChonkitError;
use chonkit::image::{ImageData, ImageFormat, ImageHash};
use chonkit::parser::{DocumentPage, DocumentSection, ParseConfig, ParseOutput, SectionParseConfig};

fn model(size: usize, multimodal: bool) -> EmbeddingModel {
    EmbeddingModel {
        name: "m".to_string(),
        size,
        provider: "p".to_string(),
        multimodal,
        max_input_tokens: 100,
    }
}

#[test]
fn text_cache_key_hashes_the_serialized_key() {
    let json = r#"{"model_name":"m","document_hash":"h"}"#;
    let key = TextEmbeddingCacheKey::new(json);
    assert_eq!(key.key(), sha256(json.as_bytes()));
    assert_eq!(
        TextEmbeddingCacheKey::new("abc").key(),
        "ba7816bf8f01cfea414140de5dae2223b00361a396177a9cb410ff61f20015ad"
    );
}

#[test]
fn image_cache_key_joins_hash_and_model() {
    let hash = ImageHash("abc123".to_string());
    assert_eq!(ImageEmbeddingCacheKey::new(&hash, "clip").key(), "abc123-clip");
}

#[test]
fn text_model_must_be_known_and_fit_the_collection() {
    assert!(text_embedding_model(Some(model(3, false)), "m", "p", 3).is_ok());
    match text_embedding_model(None, "ada", "openai", 3) {
        Err(ChonkitError::InvalidEmbeddingModel(m)) => {
            assert_eq!(m, "Model 'ada' is not supported by embedding provider 'openai'")
        }
        other => panic!("unexpected {other:?}"),
    }
    match text_embedding_model(Some(model(1536, false)), "m", "p", 3072) {
        Err(ChonkitError::InvalidEmbeddingModel(m)) => {
            assert_eq!(m, "Model size (1536) not compatible with collection size (3072)")
        }
        other => panic!("unexpected {other:?}"),
    }
}

#[test]
fn image_model_must_be_multimodal() {
    assert!(image_embedding_model(Some(model(3, true)), "m", "p").is_ok());
    match image_embedding_model(Some(model(3, false)), "m", "p") {
        Err(ChonkitError::InvalidEmbeddingModel(m)) => {
            assert_eq!(m, "Model 'm' is not multimodal and cannot embed images")
        }
        other => panic!("unexpected {other:?}"),
    }
    assert!(matches!(
        image_embedding_model(None, "m", "p"),
        Err(ChonkitError::InvalidEmbeddingModel(_))
    ));
}

#[test]
fn image_token_limit() {
    let img = ImageData { bytes: vec![], format: ImageFormat::Png, width: 280, height: 140 };
    assert_eq!(img.estimate_tokens(14), 200);
    assert_eq!(image_tokens_within_limit(&img, 14, 201).unwrap(), 200);
    match image_tokens_within_limit(&img, 14, 200) {
        Err(ChonkitError::InvalidParameter(m)) => assert_eq!(m, "Image has too many tokens (200 > 200)"),
        other => panic!("unexpected {other:?}"),
    }
}

#[test]
fn report_kinds() {
    assert_eq!(embedding_report_kind("addition", "text").unwrap(), EmbeddingReportKind::TextAddition);
    assert_eq!(embedding_report_kind("addition", "image").unwrap(), EmbeddingReportKind::ImageAddition);
    assert_eq!(embedding_report_kind("removal", "text").unwrap(), EmbeddingReportKind::TextRemoval);
    assert_eq!(embedding_report_kind("removal", "image").unwrap(), EmbeddingReportKind::ImageRemoval);
    assert_eq!(embedding_report_kind("addition", "audio").unwrap_err(), "Invalid addition type 'audio'");
    assert_eq!(embedding_report_kind("removal", "").unwrap_err(), "Invalid removal type ''");
    assert_eq!(embedding_report_kind("update", "text").unwrap_err(), "Invalid report type 'update'");
}

#[test]
fn sectioned_parsers_are_not_chunked() {
    let default = ChunkConfig::sliding(1000, 10).unwrap();
    let chosen = chunker_for(&ParseConfig::default(), None, default.clone());
    assert!(matches!(chosen, Some(ChunkConfig::Sliding(c)) if c.size == 1000 && c.overlap == 10));
    let own = ChunkConfig::snapping(500, 5, vec![], vec!["etc".to_string()], '.').unwrap();
    let chosen = chunker_for(&ParseConfig::default(), Some(own), default.clone());
    assert!(matches!(chosen, Some(ChunkConfig::Snapping(c)) if c.size == 500 && c.skip_b == vec!["etc".to_string()]));
    let sections = ParseConfig::Section(SectionParseConfig { sections: vec![], filters: vec![] });
    assert!(chunker_for(&sections, None, default).is_none());
}

#[test]
fn texts_to_embed_from_output() {
    let text = ParseOutput::String("whole".to_string());
    assert_eq!(texts_to_embed(text, None), vec!["whole".to_string()]);
    let text = ParseOutput::String("whole".to_string());
    assert_eq!(texts_to_embed(text, Some(vec!["wh".to_string(), "ole".to_string()])), vec!["wh", "ole"]);
    let sections = ParseOutput::Sections(vec![DocumentSection {
        pages: vec![
            DocumentPage { content: "p1".to_string(), number: 1 },
            DocumentPage { content: "p2".to_string(), number: 2 },
        ],
    }]);
    assert_eq!(texts_to_embed(sections, None), vec!["p1\np2\n".to_string()]);
}

#[test]
fn chunked_documents() {
    let text = String::from("a b");
    let r = ChunkedDocument::Ref(vec![&text[0..1], &text[2..3]]);
    assert!(!r.is_empty());
    assert_eq!(r.into_strings(), vec!["a".to_string(), "b".to_string()]);
    assert!(ChunkedDocument::Owned(vec![]).is_empty());
    assert_eq!(ChunkConfig::sliding(1, 0).unwrap().name(), "SlidingWindow");
}

#[test]
fn embedding_source_names() {
    assert_eq!(EmbeddingSource::Model.name(), "model");
    assert_eq!(EmbeddingSource::Cache.name(), "cache");
}

#[test]
fn openai_model_list() {
    let models = openai_models();
    let names: Vec<(&str, usize)> = models.iter().map(|m| (m.name.as_str(), m.size)).collect();
    assert_eq!(
        names,
        vec![("text-embedding-3-large", 3072), ("text-embedding-3-small", 1536), ("text-embedding-ada-002", 1536)]
    );
    assert!(models.iter().all(|m| m.provider == "openai" && !m.multimodal && m.max_input_tokens == 8192));
}

#[test]
fn embedding_input_must_not_be_empty() {
    assert!(check_embedding_input(&["a"]).is_ok());
    match check_embedding_input(&[]) {
        Err(EmbeddingError::InvalidInput(m)) => assert_eq!(m, "cannot be empty (len = 0)"),
        other => panic!("unexpected {other:?}"),
    }
}

#[test]
fn multimodal_requests() {
    assert_eq!(model_embeddings_url("http://vllm:8000", "qwen"), "http://vllm:8000/qwen/v1/embeddings");
    let r = multimodal_request(None, None, "data:image/png;base64,AA==");
    assert_eq!(r.messages.len(), 1);
    assert_eq!(r.messages[0].role, "user");
    match &r.messages[0].content {
        EmbeddingMessage::User(parts) => {
            assert!(matches!(parts[0], EmbeddingInput::Image { input_type: "image_url", url: "data:image/png;base64,AA==" }));
            assert!(matches!(parts[1], EmbeddingInput::Text { input_type: "text", text: "Represent the image." }));
        }
        _ => panic!("expected the user's message"),
    }
    let r = multimodal_request(Some("sys"), Some("describe"), "u");
    assert_eq!(r.messages.len(), 2);
    assert!(matches!(r.messages[0].content, EmbeddingMessage::System("sys")));
    match &r.messages[1].content {
        EmbeddingMessage::User(parts) => {
            assert!(matches!(parts[1], EmbeddingInput::Text { text: "describe", .. }))
        }
        _ => panic!("expected the user's message"),
    }
}

#[test]
fn failed_response_bodies() {
    assert_eq!(error_body_kind(Some(Some("application/json; charset=utf-8"))).unwrap(), ErrorBody::Json);
    assert_eq!(error_body_kind(Some(Some("text/html"))).unwrap(), ErrorBody::Text);
    match error_body_kind(None) {
        Err(EmbeddingError::Response(m)) => assert_eq!(m, "missing content-type header in response"),
        other => panic!("unexpected {other:?}"),
    }
    match error_body_kind(Some(None)) {
        Err(EmbeddingError::Response(m)) => assert_eq!(m, "malformed content-type header"),
        other => panic!("unexpected {other:?}"),
    }
}

#[test]
fn new_collections_take_the_model_size() {
    assert_eq!(collection_size(Some(1536), "m", "openai").unwrap(), 1536);
    match collection_size(None, "m", "openai") {
        Err(ChonkitError::InvalidEmbeddingModel(m)) => assert_eq!(m, "Model m not supported by embedder 'openai'"),
        other => panic!("unexpected {other:?}"),
    }
}

#[test]
fn first_model_by_name() {
    let mut a = model(3, false);
    a.name = "a".to_string();
    let mut b1 = model(4, false);
    b1.name = "b".to_string();
    let mut b2 = model(5, true);
    b2.name = "b".to_string();
    let found = model_details(vec![a.clone(), b1, b2], "b").unwrap();
    assert_eq!((found.size, found.multimodal), (4, false));
    assert!(model_details(vec![a], "c").is_none());
    assert!(model_details(vec![], "a").is_none());
}

#[test]
fn provider_urls() {
    assert_eq!(openai_embeddings_url("https://api.openai.com"), "https://api.openai.com/v1/embeddings");
    assert_eq!(
        azure_embeddings_url("https://x.openai.azure.com", "ada"),
        "https://x.openai.azure.com/openai/deployments/ada/embeddings"
    );
}

#[test]
fn embeddings_summaries() {
    assert_eq!(
        embeddings_summary(3, Some(42), EmbeddingSource::Model),
        "Embeddings { total embeddings: 3, tokens_used: 42, source: model }"
    );
    assert_eq!(
        embeddings_summary(0, None, EmbeddingSource::Cache),
        "Embeddings { total embeddings: 0, tokens_used: N/A, source: cache }"
    );
}

#[test]
fn parse_config_names() {
    assert_eq!(ParseConfig::default().name(), "string");
    assert_eq!(ParseConfig::Section(SectionParseConfig { sections: vec![], filters: vec![] }).name(), "section");
    assert!(matches!(ParseConfig::String(StringParseConfig::new(1, 2)), ParseConfig::String(c) if c.start == 1 && c.end == 2));
}
