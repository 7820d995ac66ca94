//! Keys under which embeddings are cached.

use crate::document::{hex_lower, sha256, sha256_digest};
use crate::image::ImageHash;
use crate::text::push_str;
use vstd::prelude::*;

verus! {

/// A wrapper around the resulting cache key obtained via [TextEmbeddingCacheKey::new].
///
/// Always obtained from a combination of the document's hash, its chunking config and the parse
/// mode, written out as JSON.
#[derive(Debug)]
pub struct TextEmbeddingCacheKey(String);

impl TextEmbeddingCacheKey {
    /// The key.
    pub closed spec fn key_spec(&self) -> Seq<char> {
        self.0@
    }

    /// The key of the JSON object that holds the model's name, the document's hash, the chunking
    /// configuration and the parsing configuration: the SHA256 hash of its UTF-8 bytes, in hex.
    pub fn new(serialized: &str) -> (res: Self)
        ensures
            res.key_spec() == hex_lower(sha256_digest(vstd::utf8::encode_utf8(serialized@))),
    {
        TextEmbeddingCacheKey(sha256(serialized.as_bytes()))
    }

    pub fn key(&self) -> (res: &str)
        ensures
            res@ == self.key_spec(),
    {
        self.0.as_str()
    }
}

/// The key used to retrieve the image embeddings from the cache.
///
/// See [ImageHash].
#[derive(Debug)]
pub struct ImageEmbeddingCacheKey<'a> {
    hash: &'a str,
    model: &'a str,
}

impl<'a> ImageEmbeddingCacheKey<'a> {
    /// The key: the image's hash and the model's name, joined by `-`.
    pub closed spec fn key_spec(&self) -> Seq<char> {
        self.hash@ + "-"@ + self.model@
    }

    pub fn new(hash: &'a ImageHash, model: &'a str) -> (res: Self)
        ensures
            res.key_spec() == hash.0@ + "-"@ + model@,
    {
        Self { hash: hash.0.as_str(), model }
    }

    pub fn key(&self) -> (res: String)
        ensures
            res@ == self.key_spec(),
    {
        let mut s = self.hash.to_owned();
        push_str(&mut s, "-");
        push_str(&mut s, self.model);
        s
    }
}

} // verus!
