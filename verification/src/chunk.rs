//! Chunking configurations and their results.

use vstd::prelude::*;

verus! {

#[verifier::external_type_specification]
#[verifier::external_body]
pub struct ExUtf8Error(std::str::Utf8Error);

/// Why a chunker could not be built or could not run.
#[derive(Debug)]
pub enum ChunkerError {
    Config(String),
    Utf8(std::str::Utf8Error),
}

#[derive(Debug, Clone, Copy, PartialEq, Eq, Structural)]
pub struct SlidingWindowConfig {
    pub size: usize,
    pub overlap: usize,
}

#[derive(Debug, Clone)]
pub struct SnappingWindowConfig {
    pub size: usize,
    pub overlap: usize,
    pub delimiter: char,
    pub skip_f: Vec<String>,
    pub skip_b: Vec<String>,
}

/// The configurations of the chunkers that split a text by size.
#[derive(Debug, Clone)]
pub enum ChunkConfig {
    Sliding(SlidingWindowConfig),
    Snapping(SnappingWindowConfig),
}

impl ChunkConfig {
    /// Create a `SlidingWindow` chunker.
    ///
    /// * `size`: Chunk base size.
    /// * `overlap`: Chunk overlap.
    pub fn sliding(size: usize, overlap: usize) -> (res: Result<Self, ChunkerError>)
        ensures
            res matches Ok(ChunkConfig::Sliding(c)) && c.size == size && c.overlap == overlap,
    {
        Ok(Self::Sliding(SlidingWindowConfig { size, overlap }))
    }

    /// Create a `SnappingWindow` chunker.
    ///
    /// * `size`: Chunk base size.
    /// * `overlap`: Chunk overlap.
    /// * `skip_f`: Patterns in front of delimiters to not treat as sentence stops.
    /// * `skip_b`: Patterns behind delimiters to not treat as sentence stops.
    pub fn snapping(
        size: usize,
        overlap: usize,
        skip_f: Vec<String>,
        skip_b: Vec<String>,
        delimiter: char,
    ) -> (res: Result<Self, ChunkerError>)
        ensures
            res matches Ok(ChunkConfig::Snapping(c)) && c.size == size && c.overlap == overlap
                && c.skip_f@ == skip_f@ && c.skip_b@ == skip_b@ && c.delimiter == delimiter,
    {
        Ok(Self::Snapping(SnappingWindowConfig { size, overlap, skip_f, skip_b, delimiter }))
    }

    /// The name of the chunker the configuration is for.
    pub fn name(&self) -> (res: &'static str)
        ensures
            res@ == match self {
                ChunkConfig::Sliding(_) => "SlidingWindow"@,
                ChunkConfig::Snapping(_) => "SnappingWindow"@,
            },
    {
        match self {
            Self::Sliding(_) => "SlidingWindow",
            Self::Snapping(_) => "SnappingWindow",
        }
    }
}

/// The result of chunking a document.
/// Some chunkers do not allocate.
pub enum ChunkedDocument<'content> {
    Ref(Vec<&'content str>),
    Owned(Vec<String>),
}

impl ChunkedDocument<'_> {
    /// The number of chunks.
    pub open spec fn chunk_count(&self) -> nat {
        match self {
            ChunkedDocument::Ref(v) => v@.len(),
            ChunkedDocument::Owned(v) => v@.len(),
        }
    }

    pub fn is_empty(&self) -> (res: bool)
        ensures
            res == (self.chunk_count() == 0),
    {
        match self {
            Self::Ref(v) => v.len() == 0,
            Self::Owned(v) => v.len() == 0,
        }
    }

    /// The chunks, as owned strings, in order.
    pub fn into_strings(self) -> (res: Vec<String>)
        ensures
            res@.len() == self.chunk_count(),
            forall|i: int|
                0 <= i < res@.len() ==> #[trigger] res@[i]@ == match self {
                    ChunkedDocument::Ref(v) => v@[i]@,
                    ChunkedDocument::Owned(v) => v@[i]@,
                },
    {
        match self {
            Self::Ref(r) => {
                let mut res: Vec<String> = Vec::new();
                for i in 0..r.len()
                    invariant
                        res@.len() == i,
                        forall|k: int| 0 <= k < i ==> #[trigger] res@[k]@ == r@[k]@,
                {
                    res.push(r[i].to_owned());
                }
                res
            },
            Self::Owned(o) => o,
        }
    }
}

} // verus!
