//! The decisions of embedding a document's text or an image into a collection.

use crate::chunk::ChunkConfig;
use crate::embedders::EmbeddingModel;
use crate::error::ChonkitError;
use crate::image::ImageData;
use crate::parser::{DocumentSection, ParseConfig, ParseOutput};
use crate::preview::{page_contents, section_chunks, section_text};
use crate::text::{decimal, decimal_string, push_str, str_eq};
use vstd::prelude::*;

verus! {

/// Represents the origin of embeddings.
#[derive(Debug, Clone, Copy, PartialEq, Eq, Structural)]
pub enum EmbeddingSource {
    /// The embeddings were obtained via the model.
    Model,
    /// The embeddings were obtained from the cache.
    Cache,
}

impl EmbeddingSource {
    pub fn name(&self) -> (res: &'static str)
        ensures
            res@ == match self {
                EmbeddingSource::Model => "model"@,
                EmbeddingSource::Cache => "cache"@,
            },
    {
        match self {
            EmbeddingSource::Model => "model",
            EmbeddingSource::Cache => "cache",
        }
    }
}

/// `"Model '<model>' is not supported by embedding provider '<provider>'"`.
pub open spec fn unsupported_model_message(model: Seq<char>, provider: Seq<char>) -> Seq<char> {
    "Model '"@ + model + "' is not supported by embedding provider '"@ + provider + "'"@
}

fn unsupported_model(model: &str, provider: &str) -> (res: ChonkitError)
    ensures
        res matches ChonkitError::InvalidEmbeddingModel(m) && m@ == unsupported_model_message(
            model@,
            provider@,
        ),
{
    let mut m = "Model '".to_owned();
    push_str(&mut m, model);
    push_str(&mut m, "' is not supported by embedding provider '");
    push_str(&mut m, provider);
    push_str(&mut m, "'");
    ChonkitError::InvalidEmbeddingModel(m)
}

/// The model a collection's texts are embedded with, checked against the collection: the
/// provider must know the model, and its vectors must have the collection's size.
pub fn text_embedding_model(
    details: Option<EmbeddingModel>,
    model: &str,
    provider: &str,
    collection_size: usize,
) -> (res: Result<EmbeddingModel, ChonkitError>)
    ensures
        details is None ==> (res matches Err(ChonkitError::InvalidEmbeddingModel(m)) && m@
            == unsupported_model_message(model@, provider@)),
        details matches Some(d) ==> if d.size == collection_size {
            res matches Ok(r) && r == d
        } else {
            res matches Err(ChonkitError::InvalidEmbeddingModel(m)) && m@ == "Model size ("@
                + decimal(d.size as nat) + ") not compatible with collection size ("@ + decimal(
                collection_size as nat,
            ) + ")"@
        },
{
    let d = match details {
        Some(d) => d,
        None => {
            return Err(unsupported_model(model, provider));
        },
    };
    if d.size != collection_size {
        let mut m = "Model size (".to_owned();
        push_str(&mut m, decimal_string(d.size).as_str());
        push_str(&mut m, ") not compatible with collection size (");
        push_str(&mut m, decimal_string(collection_size).as_str());
        push_str(&mut m, ")");
        return Err(ChonkitError::InvalidEmbeddingModel(m));
    }
    Ok(d)
}

/// The model a collection's images are embedded with: the provider must know the model, and
/// the model must take images.
pub fn image_embedding_model(details: Option<EmbeddingModel>, model: &str, provider: &str) -> (res:
    Result<EmbeddingModel, ChonkitError>)
    ensures
        details is None ==> (res matches Err(ChonkitError::InvalidEmbeddingModel(m)) && m@
            == unsupported_model_message(model@, provider@)),
        details matches Some(d) ==> if d.multimodal {
            res matches Ok(r) && r == d
        } else {
            res matches Err(ChonkitError::InvalidEmbeddingModel(m)) && m@ == "Model '"@ + d.name@
                + "' is not multimodal and cannot embed images"@
        },
{
    let d = match details {
        Some(d) => d,
        None => {
            return Err(unsupported_model(model, provider));
        },
    };
    if !d.multimodal {
        let mut m = "Model '".to_owned();
        push_str(&mut m, d.name.as_str());
        push_str(&mut m, "' is not multimodal and cannot embed images");
        return Err(ChonkitError::InvalidEmbeddingModel(m));
    }
    Ok(d)
}

/// The estimated tokens of an image, which must stay below the model's input limit (taken as a
/// 32-bit number, as the limit is compared with the estimate).
pub fn image_tokens_within_limit(image: &ImageData, patch_size: u32, max_input_tokens: usize) -> (res:
    Result<u32, ChonkitError>)
    requires
        patch_size > 0,
        (image.width / patch_size) * (image.height / patch_size) <= u32::MAX,
    ensures
        ({
            let tokens = (image.width / patch_size) * (image.height / patch_size);
            let limit = max_input_tokens as u32;
            if tokens >= limit {
                res matches Err(ChonkitError::InvalidParameter(m)) && m@ == "Image has too many tokens ("@
                    + decimal(tokens as nat) + " > "@ + decimal(max_input_tokens as nat) + ")"@
            } else {
                res matches Ok(t) && t == tokens
            }
        }),
{
    let tokens = image.estimate_tokens(patch_size);
    let limit = max_input_tokens as u32;
    if tokens >= limit {
        let mut m = "Image has too many tokens (".to_owned();
        push_str(&mut m, decimal_string(tokens as usize).as_str());
        push_str(&mut m, " > ");
        push_str(&mut m, decimal_string(max_input_tokens).as_str());
        push_str(&mut m, ")");
        return Err(ChonkitError::InvalidParameter(m));
    }
    Ok(tokens)
}

/// The chunker a document's text goes through before embedding: its own, or `default` when it
/// has none; none for sectioned parsers, whose sections are the chunks.
pub fn chunker_for(
    parse_config: &ParseConfig,
    configured: Option<ChunkConfig>,
    default: ChunkConfig,
) -> (res: Option<ChunkConfig>)
    ensures
        match parse_config {
            ParseConfig::String(_) => match configured {
                Some(c) => res == Some(c),
                None => res == Some(default),
            },
            ParseConfig::Section(_) => res is None,
        },
{
    match parse_config {
        ParseConfig::String(_) => match configured {
            Some(c) => Some(c),
            None => Some(default),
        },
        ParseConfig::Section(_) => None,
    }
}

/// The texts to embed from a parsed document: the chunks of its text when a chunker split it,
/// else the whole text; for sectioned output, each section's pages merged into one text.
pub fn texts_to_embed(output: ParseOutput, chunks: Option<Vec<String>>) -> (res: Vec<String>)
    ensures
        match output {
            ParseOutput::String(t) => match chunks {
                Some(c) => res@ == c@,
                None => res.deep_view() == seq![t@],
            },
            ParseOutput::Sections(s) => res@.len() == s@.len() && forall|i: int|
                0 <= i < res@.len() ==> #[trigger] res@[i]@ == section_text(page_contents(s@[i])),
        },
{
    match output {
        ParseOutput::String(text) => match chunks {
            Some(c) => c,
            None => {
                let res = vec![text];
                proof {
                    assert(res.deep_view() =~= seq![res@[0]@]);
                }
                res
            },
        },
        ParseOutput::Sections(sections) => section_chunks(&sections),
    }
}

/// The kinds of report of adding embeddings to, or removing them from, a collection.
#[derive(Debug, Clone, Copy, PartialEq, Eq, Structural)]
pub enum EmbeddingReportKind {
    TextAddition,
    ImageAddition,
    TextRemoval,
    ImageRemoval,
}

/// The kind of a stored report, from its report type (`addition` or `removal`) and the type of
/// what was embedded (`text` or `image`); any other value is refused with a message that names
/// it.
pub fn embedding_report_kind(report_type: &str, ty: &str) -> (res: Result<
    EmbeddingReportKind,
    String,
>)
    ensures
        report_type@ == "addition"@ ==> if ty@ == "text"@ {
            res == Ok::<EmbeddingReportKind, String>(EmbeddingReportKind::TextAddition)
        } else if ty@ == "image"@ {
            res == Ok::<EmbeddingReportKind, String>(EmbeddingReportKind::ImageAddition)
        } else {
            res matches Err(m) && m@ == "Invalid addition type '"@ + ty@ + "'"@
        },
        report_type@ == "removal"@ ==> if ty@ == "text"@ {
            res == Ok::<EmbeddingReportKind, String>(EmbeddingReportKind::TextRemoval)
        } else if ty@ == "image"@ {
            res == Ok::<EmbeddingReportKind, String>(EmbeddingReportKind::ImageRemoval)
        } else {
            res matches Err(m) && m@ == "Invalid removal type '"@ + ty@ + "'"@
        },
        report_type@ != "addition"@ && report_type@ != "removal"@ ==> (res matches Err(m) && m@
            == "Invalid report type '"@ + report_type@ + "'"@),
{
    proof {
        reveal_strlit("addition");
        reveal_strlit("removal");
        assert("addition"@.len() != "removal"@.len());
    }
    let addition = str_eq(report_type, "addition");
    let removal = str_eq(report_type, "removal");
    if !addition && !removal {
        let mut m = "Invalid report type '".to_owned();
        push_str(&mut m, report_type);
        push_str(&mut m, "'");
        return Err(m);
    }
    if str_eq(ty, "text") {
        return Ok(
            if addition {
                EmbeddingReportKind::TextAddition
            } else {
                EmbeddingReportKind::TextRemoval
            },
        );
    }
    if str_eq(ty, "image") {
        return Ok(
            if addition {
                EmbeddingReportKind::ImageAddition
            } else {
                EmbeddingReportKind::ImageRemoval
            },
        );
    }
    let mut m = if addition {
        "Invalid addition type '".to_owned()
    } else {
        "Invalid removal type '".to_owned()
    };
    push_str(&mut m, ty);
    push_str(&mut m, "'");
    Err(m)
}

/// The size of a new collection: that of its model, which the embedding provider must know.
pub fn collection_size(size: Option<usize>, model: &str, embedder: &str) -> (res: Result<
    usize,
    ChonkitError,
>)
    ensures
        match size {
            Some(s) => res == Ok::<usize, ChonkitError>(s),
            None => res matches Err(ChonkitError::InvalidEmbeddingModel(m)) && m@ == "Model "@
                + model@ + " not supported by embedder '"@ + embedder@ + "'"@,
        },
{
    match size {
        Some(s) => Ok(s),
        None => {
            let mut m = "Model ".to_owned();
            push_str(&mut m, model);
            push_str(&mut m, " not supported by embedder '");
            push_str(&mut m, embedder);
            push_str(&mut m, "'");
            Err(ChonkitError::InvalidEmbeddingModel(m))
        },
    }
}

/// How a set of embeddings is described: how many there are, the tokens spent (`N/A` where
/// not known) and where they came from.
pub fn embeddings_summary(total: usize, tokens_used: Option<usize>, source: EmbeddingSource) -> (res:
    String)
    ensures
        res@ == "Embeddings { total embeddings: "@ + decimal(total as nat) + ", tokens_used: "@
            + match tokens_used {
            Some(t) => decimal(t as nat),
            None => "N/A"@,
        } + ", source: "@ + match source {
            EmbeddingSource::Model => "model"@,
            EmbeddingSource::Cache => "cache"@,
        } + " }"@,
{
    let mut s = "Embeddings { total embeddings: ".to_owned();
    push_str(&mut s, decimal_string(total).as_str());
    push_str(&mut s, ", tokens_used: ");
    match tokens_used {
        Some(t) => push_str(&mut s, decimal_string(t).as_str()),
        None => push_str(&mut s, "N/A"),
    }
    push_str(&mut s, ", source: ");
    push_str(&mut s, source.name());
    push_str(&mut s, " }");
    s
}

} // verus!
