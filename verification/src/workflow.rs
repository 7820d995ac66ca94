//! The decisions of the embedding workflows, one step at a time.
//!
//! Each workflow alternates outside work (the repository, the cache, the embedder, the vector
//! database) with decisions. A step takes the state so far and what the last piece of outside
//! work found, and gives the next state and what to do next; the caller does that work and
//! hands back what came of it.

use vstd::prelude::*;

verus! {

/// Why a workflow stops.
#[derive(Debug, Clone, Copy, PartialEq, Eq, Structural)]
pub enum EmbeddingFailure {
    /// The document or image is not stored.
    SubjectMissing,
    /// The collection does not exist.
    CollectionMissing,
    /// The document or image is already embedded in the collection.
    AlreadyEmbedded,
    /// There are no embeddings of the document or image in the collection to remove.
    NothingEmbedded,
    /// The patch size is zero, or the image has more patches than a 32-bit count holds.
    UncountableTokens,
    /// The image's estimated tokens reach the model's input limit.
    TooManyTokens { tokens: u32, limit: usize },
    /// What was handed back does not belong to the step the workflow is at.
    UnexpectedEvent,
}

/// The counts that an addition report records.
#[derive(Debug, Clone, Copy, PartialEq, Eq, Structural)]
pub struct AdditionCounts {
    /// Tokens the embedder used, where it says.
    pub tokens_used: Option<i32>,
    /// Vectors stored.
    pub total_vectors: i32,
    /// Whether the vectors came from the cache.
    pub cache: bool,
}

/// `n` as a 32-bit count, saturated.
pub open spec fn count_i32(n: nat) -> i32 {
    if n > i32::MAX {
        i32::MAX
    } else {
        n as i32
    }
}

fn to_count_i32(n: usize) -> (res: i32)
    ensures
        res == count_i32(n as nat),
{
    if n > 2147483647 {
        2147483647
    } else {
        n as i32
    }
}

/// Tokens the embedder reports, as the report records them (a 32-bit signed number).
pub open spec fn reported_tokens(t: Option<u32>) -> Option<i32> {
    match t {
        Some(n) => Some(n as i32),
        None => None,
    }
}

fn to_reported_tokens(t: Option<u32>) -> (res: Option<i32>)
    ensures
        res == reported_tokens(t),
{
    match t {
        Some(n) => Some(n as i32),
        None => None,
    }
}

/// Where the embedding of a document's text stands.
#[derive(Debug, Clone, Copy, PartialEq, Eq, Structural)]
pub enum TextEmbeddingState {
    /// Nothing looked up yet.
    Start,
    /// The document and collection are known and not yet embedded together; the cache is read.
    ReadingCache,
    /// No cached embeddings; the document is parsed, chunked and embedded.
    Embedding,
    /// The embeddings and the report are being stored.
    Storing,
    /// The workflow has ended.
    Done,
}

/// What came of the outside work of a text embedding step.
#[derive(Debug, Clone, Copy, PartialEq, Eq, Structural)]
pub enum TextEmbeddingEvent {
    /// The document and collection were looked up, and whether the document already has
    /// embeddings in the collection.
    LookedUp { document_found: bool, collection_found: bool, already_embedded: bool },
    /// The cache was read: the number of cached vectors, or `None` on a miss or a cache error.
    CacheRead { cached_vectors: Option<usize> },
    /// The texts were embedded: the vectors, and the tokens the embedder reports.
    Embedded { vectors: usize, tokens_used: Option<u32> },
    /// The embeddings and the report are stored.
    Stored,
}

/// What to do next in a text embedding.
#[derive(Debug, Clone, Copy, PartialEq, Eq, Structural)]
pub enum TextEmbeddingAction {
    /// Check the providers and the model, and read the cache.
    ReadCache,
    /// Store the cached vectors, and a report with these counts.
    StoreCached(AdditionCounts),
    /// Parse and chunk the document and embed its texts.
    ParseAndEmbed,
    /// Store the new vectors (and cache them), and a report with these counts.
    StoreEmbedded(AdditionCounts),
    /// Return the report.
    Finish,
    /// Stop with this failure.
    Fail(EmbeddingFailure),
}

/// The transitions of a text embedding.
pub open spec fn text_embedding_next(state: TextEmbeddingState, event: TextEmbeddingEvent) -> (
    TextEmbeddingState,
    TextEmbeddingAction,
) {
    match (state, event) {
        (
            TextEmbeddingState::Start,
            TextEmbeddingEvent::LookedUp { document_found, collection_found, already_embedded },
        ) => if !document_found {
            (TextEmbeddingState::Done, TextEmbeddingAction::Fail(EmbeddingFailure::SubjectMissing))
        } else if !collection_found {
            (TextEmbeddingState::Done, TextEmbeddingAction::Fail(EmbeddingFailure::CollectionMissing))
        } else if already_embedded {
            (TextEmbeddingState::Done, TextEmbeddingAction::Fail(EmbeddingFailure::AlreadyEmbedded))
        } else {
            (TextEmbeddingState::ReadingCache, TextEmbeddingAction::ReadCache)
        },
        (TextEmbeddingState::ReadingCache, TextEmbeddingEvent::CacheRead { cached_vectors }) => match cached_vectors {
            Some(n) => (
                TextEmbeddingState::Storing,
                TextEmbeddingAction::StoreCached(
                    AdditionCounts { tokens_used: Some(0), total_vectors: count_i32(n as nat), cache: true },
                ),
            ),
            None => (TextEmbeddingState::Embedding, TextEmbeddingAction::ParseAndEmbed),
        },
        (TextEmbeddingState::Embedding, TextEmbeddingEvent::Embedded { vectors, tokens_used }) => (
            TextEmbeddingState::Storing,
            TextEmbeddingAction::StoreEmbedded(
                AdditionCounts {
                    tokens_used: reported_tokens(tokens_used),
                    total_vectors: count_i32(vectors as nat),
                    cache: false,
                },
            ),
        ),
        (TextEmbeddingState::Storing, TextEmbeddingEvent::Stored) => (
            TextEmbeddingState::Done,
            TextEmbeddingAction::Finish,
        ),
        _ => (TextEmbeddingState::Done, TextEmbeddingAction::Fail(EmbeddingFailure::UnexpectedEvent)),
    }
}

/// One step of embedding a document's text into a collection: a document already embedded
/// in the collection is refused; cached vectors are stored without embedding anything (no
/// tokens used); otherwise the document is embedded, and the report counts the vectors
/// stored.
pub fn text_embedding_step(state: &TextEmbeddingState, event: TextEmbeddingEvent) -> (res: (
    TextEmbeddingState,
    TextEmbeddingAction,
))
    ensures
        res == text_embedding_next(*state, event),
        *state == TextEmbeddingState::Start && (event matches TextEmbeddingEvent::LookedUp {
            document_found,
            collection_found,
            already_embedded,
        } && document_found && collection_found && already_embedded) ==> res.1
            == TextEmbeddingAction::Fail(EmbeddingFailure::AlreadyEmbedded),
        *state == TextEmbeddingState::ReadingCache ==> (event matches TextEmbeddingEvent::CacheRead {
            cached_vectors: Some(n),
        } ==> (res.1 matches TextEmbeddingAction::StoreCached(c) && c.cache && c.tokens_used
            == Some(0i32) && c.total_vectors == count_i32(n as nat))),
        *state == TextEmbeddingState::Embedding ==> (event matches TextEmbeddingEvent::Embedded {
            vectors,
            tokens_used,
        } ==> (res.1 matches TextEmbeddingAction::StoreEmbedded(c) && !c.cache && c.total_vectors
            == count_i32(vectors as nat) && c.tokens_used == reported_tokens(tokens_used))),
{
    match (*state, event) {
        (
            TextEmbeddingState::Start,
            TextEmbeddingEvent::LookedUp { document_found, collection_found, already_embedded },
        ) => if !document_found {
            (TextEmbeddingState::Done, TextEmbeddingAction::Fail(EmbeddingFailure::SubjectMissing))
        } else if !collection_found {
            (TextEmbeddingState::Done, TextEmbeddingAction::Fail(EmbeddingFailure::CollectionMissing))
        } else if already_embedded {
            (TextEmbeddingState::Done, TextEmbeddingAction::Fail(EmbeddingFailure::AlreadyEmbedded))
        } else {
            (TextEmbeddingState::ReadingCache, TextEmbeddingAction::ReadCache)
        },
        (TextEmbeddingState::ReadingCache, TextEmbeddingEvent::CacheRead { cached_vectors }) => match cached_vectors {
            Some(n) => (
                TextEmbeddingState::Storing,
                TextEmbeddingAction::StoreCached(
                    AdditionCounts { tokens_used: Some(0), total_vectors: to_count_i32(n), cache: true },
                ),
            ),
            None => (TextEmbeddingState::Embedding, TextEmbeddingAction::ParseAndEmbed),
        },
        (TextEmbeddingState::Embedding, TextEmbeddingEvent::Embedded { vectors, tokens_used }) => (
            TextEmbeddingState::Storing,
            TextEmbeddingAction::StoreEmbedded(
                AdditionCounts {
                    tokens_used: to_reported_tokens(tokens_used),
                    total_vectors: to_count_i32(vectors),
                    cache: false,
                },
            ),
        ),
        (TextEmbeddingState::Storing, TextEmbeddingEvent::Stored) => (
            TextEmbeddingState::Done,
            TextEmbeddingAction::Finish,
        ),
        _ => (TextEmbeddingState::Done, TextEmbeddingAction::Fail(EmbeddingFailure::UnexpectedEvent)),
    }
}

/// Where the embedding of an image stands.
#[derive(Debug, Clone, Copy, PartialEq, Eq, Structural)]
pub enum ImageEmbeddingState {
    /// Nothing looked up yet.
    Start,
    /// The image and collection are known and not yet embedded together; the cache is read.
    /// The image's size, the patch size tokens are estimated in, and the model's input limit
    /// are kept for a cache miss.
    ReadingCache { width: u32, height: u32, patch_size: u32, max_input_tokens: usize },
    /// No cached vector; the image is embedded.
    Embedding,
    /// The vector and the report are being stored.
    Storing,
    /// The workflow has ended.
    Done,
}

/// What came of the outside work of an image embedding step.
#[derive(Debug, Clone, Copy, PartialEq, Eq, Structural)]
pub enum ImageEmbeddingEvent {
    /// The image and collection were looked up, whether the image already has embeddings in
    /// the collection, the image's size, the patch size, and the model's input limit.
    LookedUp {
        image_found: bool,
        collection_found: bool,
        already_embedded: bool,
        width: u32,
        height: u32,
        patch_size: u32,
        max_input_tokens: usize,
    },
    /// The cache was read: whether it held the image's vector.
    CacheRead { hit: bool },
    /// The image was embedded: the tokens the embedder reports.
    Embedded { tokens_used: Option<u32> },
    /// The vector and the report are stored.
    Stored,
}

/// What to do next in an image embedding.
#[derive(Debug, Clone, Copy, PartialEq, Eq, Structural)]
pub enum ImageEmbeddingAction {
    /// Check the providers and the model, and read the cache.
    ReadCache,
    /// Store the cached vector, and a report with these counts.
    StoreCached(AdditionCounts),
    /// Embed the image; its estimated tokens are these.
    Embed { estimated_tokens: u32 },
    /// Store the new vector (and cache it), and a report with these counts.
    StoreEmbedded(AdditionCounts),
    /// Return the report.
    Finish,
    /// Stop with this failure.
    Fail(EmbeddingFailure),
}

/// The number of `patch_size` by `patch_size` patches that fit in the image.
pub open spec fn patches(width: u32, height: u32, patch_size: u32) -> int {
    (width / patch_size) * (height / patch_size)
}

/// The transitions of an image embedding.
pub open spec fn image_embedding_next(state: ImageEmbeddingState, event: ImageEmbeddingEvent) -> (
    ImageEmbeddingState,
    ImageEmbeddingAction,
) {
    match (state, event) {
        (
            ImageEmbeddingState::Start,
            ImageEmbeddingEvent::LookedUp {
                image_found,
                collection_found,
                already_embedded,
                width,
                height,
                patch_size,
                max_input_tokens,
            },
        ) => if !image_found {
            (ImageEmbeddingState::Done, ImageEmbeddingAction::Fail(EmbeddingFailure::SubjectMissing))
        } else if !collection_found {
            (ImageEmbeddingState::Done, ImageEmbeddingAction::Fail(EmbeddingFailure::CollectionMissing))
        } else if already_embedded {
            (ImageEmbeddingState::Done, ImageEmbeddingAction::Fail(EmbeddingFailure::AlreadyEmbedded))
        } else {
            (
                ImageEmbeddingState::ReadingCache { width, height, patch_size, max_input_tokens },
                ImageEmbeddingAction::ReadCache,
            )
        },
        (
            ImageEmbeddingState::ReadingCache { width, height, patch_size, max_input_tokens },
            ImageEmbeddingEvent::CacheRead { hit },
        ) => if hit {
            (
                ImageEmbeddingState::Storing,
                ImageEmbeddingAction::StoreCached(
                    AdditionCounts { tokens_used: None, total_vectors: 1, cache: true },
                ),
            )
        } else if patch_size == 0 || patches(width, height, patch_size) > u32::MAX {
            (ImageEmbeddingState::Done, ImageEmbeddingAction::Fail(EmbeddingFailure::UncountableTokens))
        } else if patches(width, height, patch_size) >= (max_input_tokens as u32) {
            (
                ImageEmbeddingState::Done,
                ImageEmbeddingAction::Fail(
                    EmbeddingFailure::TooManyTokens {
                        tokens: patches(width, height, patch_size) as u32,
                        limit: max_input_tokens,
                    },
                ),
            )
        } else {
            (
                ImageEmbeddingState::Embedding,
                ImageEmbeddingAction::Embed {
                    estimated_tokens: patches(width, height, patch_size) as u32,
                },
            )
        },
        (ImageEmbeddingState::Embedding, ImageEmbeddingEvent::Embedded { tokens_used }) => (
            ImageEmbeddingState::Storing,
            ImageEmbeddingAction::StoreEmbedded(
                AdditionCounts { tokens_used: reported_tokens(tokens_used), total_vectors: 1, cache: false },
            ),
        ),
        (ImageEmbeddingState::Storing, ImageEmbeddingEvent::Stored) => (
            ImageEmbeddingState::Done,
            ImageEmbeddingAction::Finish,
        ),
        _ => (ImageEmbeddingState::Done, ImageEmbeddingAction::Fail(EmbeddingFailure::UnexpectedEvent)),
    }
}

/// One step of embedding an image into a collection: an image already embedded in the
/// collection is refused; a cached vector is stored without embedding anything; otherwise the
/// image's tokens are estimated in patches, and an image whose estimate reaches the model's
/// input limit is refused before it is embedded.
pub fn image_embedding_step(state: &ImageEmbeddingState, event: ImageEmbeddingEvent) -> (res: (
    ImageEmbeddingState,
    ImageEmbeddingAction,
))
    ensures
        res == image_embedding_next(*state, event),
        res.1 matches ImageEmbeddingAction::Embed { estimated_tokens } ==> (*state matches ImageEmbeddingState::ReadingCache {
            width,
            height,
            patch_size,
            max_input_tokens,
        } && patch_size > 0 && estimated_tokens == patches(width, height, patch_size)
            && estimated_tokens < max_input_tokens as u32),
        res.1 matches ImageEmbeddingAction::StoreCached(c) ==> c.cache && c.tokens_used is None
            && c.total_vectors == 1,
{
    match (*state, event) {
        (
            ImageEmbeddingState::Start,
            ImageEmbeddingEvent::LookedUp {
                image_found,
                collection_found,
                already_embedded,
                width,
                height,
                patch_size,
                max_input_tokens,
            },
        ) => if !image_found {
            (ImageEmbeddingState::Done, ImageEmbeddingAction::Fail(EmbeddingFailure::SubjectMissing))
        } else if !collection_found {
            (ImageEmbeddingState::Done, ImageEmbeddingAction::Fail(EmbeddingFailure::CollectionMissing))
        } else if already_embedded {
            (ImageEmbeddingState::Done, ImageEmbeddingAction::Fail(EmbeddingFailure::AlreadyEmbedded))
        } else {
            (
                ImageEmbeddingState::ReadingCache { width, height, patch_size, max_input_tokens },
                ImageEmbeddingAction::ReadCache,
            )
        },
        (
            ImageEmbeddingState::ReadingCache { width, height, patch_size, max_input_tokens },
            ImageEmbeddingEvent::CacheRead { hit },
        ) => {
            if hit {
                return (
                    ImageEmbeddingState::Storing,
                    ImageEmbeddingAction::StoreCached(
                        AdditionCounts { tokens_used: None, total_vectors: 1, cache: true },
                    ),
                );
            }
            if patch_size == 0 {
                return (
                    ImageEmbeddingState::Done,
                    ImageEmbeddingAction::Fail(EmbeddingFailure::UncountableTokens),
                );
            }
            let across = (width / patch_size) as u64;
            let down = (height / patch_size) as u64;
            assert(across * down <= u32::MAX * u32::MAX) by (nonlinear_arith)
                requires
                    across <= u32::MAX,
                    down <= u32::MAX,
            ;
            let n = across * down;
            if n > 4294967295 {
                return (
                    ImageEmbeddingState::Done,
                    ImageEmbeddingAction::Fail(EmbeddingFailure::UncountableTokens),
                );
            }
            let tokens = n as u32;
            if tokens >= max_input_tokens as u32 {
                (
                    ImageEmbeddingState::Done,
                    ImageEmbeddingAction::Fail(
                        EmbeddingFailure::TooManyTokens { tokens, limit: max_input_tokens },
                    ),
                )
            } else {
                (ImageEmbeddingState::Embedding, ImageEmbeddingAction::Embed { estimated_tokens: tokens })
            }
        },
        (ImageEmbeddingState::Embedding, ImageEmbeddingEvent::Embedded { tokens_used }) => (
            ImageEmbeddingState::Storing,
            ImageEmbeddingAction::StoreEmbedded(
                AdditionCounts { tokens_used: to_reported_tokens(tokens_used), total_vectors: 1, cache: false },
            ),
        ),
        (ImageEmbeddingState::Storing, ImageEmbeddingEvent::Stored) => (
            ImageEmbeddingState::Done,
            ImageEmbeddingAction::Finish,
        ),
        _ => (ImageEmbeddingState::Done, ImageEmbeddingAction::Fail(EmbeddingFailure::UnexpectedEvent)),
    }
}

/// Where the removal of a document's or an image's embeddings from a collection stands.
#[derive(Debug, Clone, Copy, PartialEq, Eq, Structural)]
pub enum RemovalState {
    /// Nothing looked up yet.
    Start,
    /// The rows and vectors are being deleted.
    Deleting,
    /// The report is being stored.
    Storing,
    /// The workflow has ended.
    Done,
}

/// What came of the outside work of a removal step.
#[derive(Debug, Clone, Copy, PartialEq, Eq, Structural)]
pub enum RemovalEvent {
    /// The document or image and the collection were looked up, and whether it has
    /// embeddings in the collection.
    LookedUp { subject_found: bool, collection_found: bool, has_embeddings: bool },
    /// The embedding rows were deleted, and the vectors counted in the vector database.
    Deleted { rows_removed: usize, vectors: usize },
    /// The report is stored and the vectors deleted.
    Stored,
}

/// What to do next in a removal.
#[derive(Debug, Clone, Copy, PartialEq, Eq, Structural)]
pub enum RemovalAction {
    /// Delete the embedding rows and count the vectors.
    Delete,
    /// Store the removal report and delete the vectors; the counts removed are these.
    StoreReport { rows_removed: usize, vectors_removed: usize },
    /// Return the report.
    Finish,
    /// Stop with this failure.
    Fail(EmbeddingFailure),
}

/// The transitions of a removal.
pub open spec fn removal_next(state: RemovalState, event: RemovalEvent) -> (RemovalState, RemovalAction) {
    match (state, event) {
        (
            RemovalState::Start,
            RemovalEvent::LookedUp { subject_found, collection_found, has_embeddings },
        ) => if !subject_found {
            (RemovalState::Done, RemovalAction::Fail(EmbeddingFailure::SubjectMissing))
        } else if !collection_found {
            (RemovalState::Done, RemovalAction::Fail(EmbeddingFailure::CollectionMissing))
        } else if !has_embeddings {
            (RemovalState::Done, RemovalAction::Fail(EmbeddingFailure::NothingEmbedded))
        } else {
            (RemovalState::Deleting, RemovalAction::Delete)
        },
        (RemovalState::Deleting, RemovalEvent::Deleted { rows_removed, vectors }) => (
            RemovalState::Storing,
            RemovalAction::StoreReport { rows_removed, vectors_removed: vectors },
        ),
        (RemovalState::Storing, RemovalEvent::Stored) => (RemovalState::Done, RemovalAction::Finish),
        _ => (RemovalState::Done, RemovalAction::Fail(EmbeddingFailure::UnexpectedEvent)),
    }
}

/// One step of removing the embeddings of a document or an image from a collection: there
/// must be some to remove; the report gives the rows and vectors removed.
pub fn embedding_removal_step(state: &RemovalState, event: RemovalEvent) -> (res: (
    RemovalState,
    RemovalAction,
))
    ensures
        res == removal_next(*state, event),
        res.1 matches RemovalAction::StoreReport { rows_removed, vectors_removed } ==> (event
            matches RemovalEvent::Deleted { rows_removed: r, vectors: v } && rows_removed == r
            && vectors_removed == v),
{
    match (*state, event) {
        (
            RemovalState::Start,
            RemovalEvent::LookedUp { subject_found, collection_found, has_embeddings },
        ) => if !subject_found {
            (RemovalState::Done, RemovalAction::Fail(EmbeddingFailure::SubjectMissing))
        } else if !collection_found {
            (RemovalState::Done, RemovalAction::Fail(EmbeddingFailure::CollectionMissing))
        } else if !has_embeddings {
            (RemovalState::Done, RemovalAction::Fail(EmbeddingFailure::NothingEmbedded))
        } else {
            (RemovalState::Deleting, RemovalAction::Delete)
        },
        (RemovalState::Deleting, RemovalEvent::Deleted { rows_removed, vectors }) => (
            RemovalState::Storing,
            RemovalAction::StoreReport { rows_removed, vectors_removed: vectors },
        ),
        (RemovalState::Storing, RemovalEvent::Stored) => (RemovalState::Done, RemovalAction::Finish),
        _ => (RemovalState::Done, RemovalAction::Fail(EmbeddingFailure::UnexpectedEvent)),
    }
}

/// A text embedding reads the cache only after a lookup that found both the document and the
/// collection, and found no embeddings of the document there; a lookup that found the
/// document but not the collection ends the workflow with `CollectionMissing`, whatever else it
/// found.
pub proof fn law_text_embedding_needs_collection(event: TextEmbeddingEvent)
    ensures
        text_embedding_next(TextEmbeddingState::Start, event).1 == TextEmbeddingAction::ReadCache
            ==> event == (TextEmbeddingEvent::LookedUp {
            document_found: true,
            collection_found: true,
            already_embedded: false,
        }),
        (event matches TextEmbeddingEvent::LookedUp { document_found, collection_found, .. }
            && document_found && !collection_found) ==> text_embedding_next(
            TextEmbeddingState::Start,
            event,
        ) == (TextEmbeddingState::Done, TextEmbeddingAction::Fail(
            EmbeddingFailure::CollectionMissing,
        )),
        (event matches TextEmbeddingEvent::LookedUp { document_found, .. } && !document_found)
            ==> text_embedding_next(TextEmbeddingState::Start, event) == (
            TextEmbeddingState::Done,
            TextEmbeddingAction::Fail(EmbeddingFailure::SubjectMissing),
        ),
        text_embedding_next(
            TextEmbeddingState::Start,
            TextEmbeddingEvent::LookedUp { document_found: true, collection_found: true, already_embedded: true },
        ) == (TextEmbeddingState::Done, TextEmbeddingAction::Fail(EmbeddingFailure::AlreadyEmbedded)),
{
}

/// Likewise for an image: the cache is read only after a lookup that found the image and the
/// collection and no embeddings of the image there; a missing collection ends the workflow
/// with `CollectionMissing` when the image was found; and an image is embedded only when its
/// patch estimate, with a patch size above zero, stays below the model's input limit.
pub proof fn law_image_embedding_needs_collection(state: ImageEmbeddingState, event: ImageEmbeddingEvent)
    ensures
        image_embedding_next(ImageEmbeddingState::Start, event).1 == ImageEmbeddingAction::ReadCache
            ==> (event matches ImageEmbeddingEvent::LookedUp {
            image_found,
            collection_found,
            already_embedded,
            ..
        } && image_found && collection_found && !already_embedded),
        (event matches ImageEmbeddingEvent::LookedUp { image_found, collection_found, .. }
            && image_found && !collection_found) ==> image_embedding_next(
            ImageEmbeddingState::Start,
            event,
        ) == (ImageEmbeddingState::Done, ImageEmbeddingAction::Fail(
            EmbeddingFailure::CollectionMissing,
        )),
        image_embedding_next(state, event).1 matches ImageEmbeddingAction::Embed { estimated_tokens }
            ==> (state matches ImageEmbeddingState::ReadingCache { width, height, patch_size, max_input_tokens }
            && patch_size > 0 && estimated_tokens == (width / patch_size) * (height / patch_size)
            && (estimated_tokens as int) < (max_input_tokens as u32) as int),
        image_embedding_next(state, event).1 matches ImageEmbeddingAction::StoreCached(_) ==> (event
            == ImageEmbeddingEvent::CacheRead { hit: true }),
{
}

/// Embeddings are deleted only after a lookup that found the document or image, the
/// collection, and embeddings of the one in the other; the report then gives exactly the rows
/// and vectors that the deletion removed.
pub proof fn law_removal_needs_embeddings(state: RemovalState, event: RemovalEvent)
    ensures
        removal_next(RemovalState::Start, event).1 == RemovalAction::Delete ==> event
            == (RemovalEvent::LookedUp { subject_found: true, collection_found: true, has_embeddings: true }),
        (event matches RemovalEvent::LookedUp { subject_found, collection_found, .. } && subject_found
            && !collection_found) ==> removal_next(RemovalState::Start, event) == (
            RemovalState::Done,
            RemovalAction::Fail(EmbeddingFailure::CollectionMissing),
        ),
        removal_next(state, event).1 matches RemovalAction::StoreReport { rows_removed, vectors_removed }
            ==> (state == RemovalState::Deleting && event == (RemovalEvent::Deleted {
            rows_removed,
            vectors: vectors_removed,
        })),
{
}

} // verus!
