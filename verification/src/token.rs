//! Token counting with the ChatGPT/Ada and GPT-4o vocabularies.

use crate::error::ChonkitError;
use crate::splitline::byte_len;
use std::sync::Arc;
use vstd::prelude::*;

verus! {

#[verifier::external_type_specification]
#[verifier::external_body]
pub struct ExCoreBPE(tiktoken_rs::CoreBPE);

/// The number of tokens `text` encodes to in the `cl100k_base` vocabulary, special tokens
/// allowed.
pub uninterp spec fn cl100k_tokens(text: Seq<char>) -> nat;

/// The number of tokens `text` encodes to in the `o200k_base` vocabulary, special tokens
/// allowed.
pub uninterp spec fn o200k_tokens(text: Seq<char>) -> nat;

/// Whether `CoreBPE::encode` encodes `text` with the `cl100k_base` tokenizer, with every
/// special token allowed, rather than reporting that its regex engine gave up.
pub uninterp spec fn cl100k_encodes(text: Seq<char>) -> bool;

/// As [cl100k_encodes], with the `o200k_base` tokenizer.
pub uninterp spec fn o200k_encodes(text: Seq<char>) -> bool;

/// `tiktoken_rs::cl100k_base`: builds the vocabulary from the data that the crate compiles in
/// (`include_str!` of its own asset file) and the fixed special tokens and pattern, so its
/// outcome does not depend on anything at run time; the crate's data builds.
#[verifier::external_body]
fn load_cl100k() -> (res: Option<tiktoken_rs::CoreBPE>)
    ensures
        res is Some,
{
    tiktoken_rs::cl100k_base().ok()
}

/// `tiktoken_rs::o200k_base`: as [load_cl100k], for the GPT-4o vocabulary.
#[verifier::external_body]
fn load_o200k() -> (res: Option<tiktoken_rs::CoreBPE>)
    ensures
        res is Some,
{
    tiktoken_rs::o200k_base().ok()
}

/// Holds tokenizers so we don't have to load them every time.
#[derive(Clone)]
pub struct Tokenizer {
    /// Tokenizer for ChatGPT and Ada models, built by `cl100k_base`.
    cl100k: Arc<tiktoken_rs::CoreBPE>,
    /// Tokenizer for GPT-4 models, built by `o200k_base`.
    o200k: Arc<tiktoken_rs::CoreBPE>,
}

/// `CoreBPE::encode` with every special token of the vocabulary allowed (what
/// `encode_with_special_tokens` does, which panics where `encode` reports a regex error), on
/// the `cl100k_base` tokenizer: the number of tokens, named [cl100k_tokens], or `None` on that
/// error, which depends on the text alone and is named by [cl100k_encodes]. Every token the source emits stands for a non-empty run of the text's UTF-8 bytes (a
/// special token, a vocabulary entry or a byte-pair merge of a non-empty regex match), so there
/// are never more tokens than bytes.
#[verifier::external_body]
fn encode_cl100k(tokenizer: &Tokenizer, text: &str) -> (res: Option<usize>)
    ensures
        res is Some <==> cl100k_encodes(text@),
        res matches Some(n) ==> n == cl100k_tokens(text@) && n <= byte_len(text@),
{
    let allowed = tokenizer.cl100k.special_tokens();
    match tokenizer.cl100k.encode(text, &allowed) {
        Ok((tokens, _)) => Some(tokens.len()),
        Err(_) => None,
    }
}

/// As [encode_cl100k], on the `o200k_base` tokenizer; the count is named [o200k_tokens], the
/// success [o200k_encodes].
#[verifier::external_body]
fn encode_o200k(tokenizer: &Tokenizer, text: &str) -> (res: Option<usize>)
    ensures
        res is Some <==> o200k_encodes(text@),
        res matches Some(n) ==> n == o200k_tokens(text@) && n <= byte_len(text@),
{
    let allowed = tokenizer.o200k.special_tokens();
    match tokenizer.o200k.encode(text, &allowed) {
        Ok((tokens, _)) => Some(tokens.len()),
        Err(_) => None,
    }
}

/// The token counts of a text in both vocabularies.
pub open spec fn token_count_of(text: Seq<char>) -> TokenCount {
    TokenCount { cl100k: cl100k_tokens(text) as usize, o200k: o200k_tokens(text) as usize }
}

impl Tokenizer {
    /// Load both vocabularies.
    pub fn new() -> (res: Result<Self, ChonkitError>)
        ensures
            res is Ok,
    {
        let chat_gpt_ada_tokenizer = match load_cl100k() {
            Some(t) => t,
            None => {
                return Err(ChonkitError::Tokenizer("unable to load cl100k_base tokenizer".to_owned()));
            },
        };
        let gpt_4o_tokenizer = match load_o200k() {
            Some(t) => t,
            None => {
                return Err(ChonkitError::Tokenizer("unable to load o200k_base tokenizer".to_owned()));
            },
        };
        Ok(Self { cl100k: Arc::new(chat_gpt_ada_tokenizer), o200k: Arc::new(gpt_4o_tokenizer) })
    }

    /// Count the tokens of `text` in both vocabularies; an error where the tokenizer's regex
    /// engine gives up on the text.
    pub fn count(&self, text: &str) -> (res: Result<TokenCount, ChonkitError>)
        ensures
            res matches Ok(c) ==> c == token_count_of(text@) && c.cl100k == cl100k_tokens(text@)
                && c.o200k == o200k_tokens(text@) && c.cl100k <= byte_len(text@) && c.o200k
                <= byte_len(text@),
            res is Ok <==> cl100k_encodes(text@) && o200k_encodes(text@),
            res matches Err(e) ==> e is Tokenizer,
    {
        let cl100k = match encode_cl100k(self, text) {
            Some(n) => n,
            None => {
                return Err(ChonkitError::Tokenizer("unable to encode text".to_owned()));
            },
        };
        let o200k = match encode_o200k(self, text) {
            Some(n) => n,
            None => {
                return Err(ChonkitError::Tokenizer("unable to encode text".to_owned()));
            },
        };
        Ok(TokenCount::new(cl100k, o200k))
    }
}

#[derive(Debug, Clone, Copy, PartialEq, Eq, Structural)]
pub struct TokenCount {
    /// Number of tokens for ChatGPT and Ada models.
    pub cl100k: usize,
    /// Number of tokens for GPT-4o models.
    pub o200k: usize,
}

impl TokenCount {
    pub fn new(cl100k: usize, o200k: usize) -> (res: Self)
        ensures
            res.cl100k == cl100k,
            res.o200k == o200k,
    {
        Self { cl100k, o200k }
    }

    /// Add `rhs` to both counts.
    pub fn add_assign(&mut self, rhs: Self)
        requires
            old(self).cl100k + rhs.cl100k <= usize::MAX,
            old(self).o200k + rhs.o200k <= usize::MAX,
        ensures
            final(self).cl100k == old(self).cl100k + rhs.cl100k,
            final(self).o200k == old(self).o200k + rhs.o200k,
    {
        self.cl100k = self.cl100k + rhs.cl100k;
        self.o200k = self.o200k + rhs.o200k;
    }
}

impl Default for TokenCount {
    fn default() -> (res: Self)
        ensures
            res.cl100k == 0,
            res.o200k == 0,
    {
        Self { cl100k: 0, o200k: 0 }
    }
}

} // verus!
