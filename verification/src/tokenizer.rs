//! What the pipeline takes on trust from the tokenizer.
//!
//! Nothing in this file is proved.  Each contract restates, for the calls the
//! pipeline makes, what the tokenizer's source shows.

use vstd::prelude::*;
use rust_tokenizers::preprocessing::tokenizer::base_tokenizer::{
    MultiThreadedTokenizer,
    Tokenizer,
    TruncationStrategy,
};
use rust_tokenizers::preprocessing::tokenizer::bert_tokenizer::BertTokenizer;

verus! {

/// `rust_tokenizers`' WordPiece tokenizer, carried as an opaque value.
#[verifier::external_type_specification]
#[verifier::external_body]
pub struct ExBertTokenizer(BertTokenizer);

/// Whether the tokenizer's vocabulary has an entry for the token it falls back
/// to when a piece of text is not in the vocabulary.
pub uninterp spec fn knows_unknown_token(tokenizer: &BertTokenizer) -> bool;

/// The text `Tokenizer::decode` gives for the one-token sequence `[id]`, with
/// special tokens skipped and tokenization spaces cleaned up.
pub uninterp spec fn token_text(tokenizer: &BertTokenizer, id: i64) -> Seq<char>;

/// Looks up the vocabulary's `unknown_value` among its `values`
/// (`HashMap::contains_key` on the map that `Tokenizer::vocab` hands out).
/// The contract only gives the answer its name.
#[verifier::external_body]
pub(crate) fn has_unknown_token(tokenizer: &BertTokenizer) -> (known: bool)
    ensures
        known == knows_unknown_token(tokenizer),
{
    let vocab = Tokenizer::vocab(tokenizer);
    vocab.values.contains_key(vocab.unknown_value)
}

/// `MultiThreadedTokenizer::encode_list` with the longest-first truncation
/// strategy, each encoded text reduced to its token identifiers.
///
/// The contract claims that there is one row per text, and that a row has at
/// least the two tokens that open and close every sequence and at most
/// `max_len` tokens.  It leaves out the tokenizers whose vocabulary cannot
/// resolve an unknown token, on which the call ends the process, and the
/// limits below two, on which it panics.
#[verifier::external_body]
pub(crate) fn encode_longest_first(
    tokenizer: &BertTokenizer,
    texts: &[&str],
    max_len: usize,
    stride: usize,
) -> (rows: Vec<Vec<i64>>)
    requires
        knows_unknown_token(tokenizer),
        max_len >= 2,
    ensures
        rows.len() == texts.len(),
        forall|i: int| 0 <= i < rows.len() ==> 2 <= (#[trigger] rows[i]).len() <= max_len,
{
    let strategy = TruncationStrategy::LongestFirst;
    let encoded = MultiThreadedTokenizer::encode_list(
        tokenizer,
        texts.to_vec(),
        max_len,
        &strategy,
        stride,
    );
    encoded.into_iter().map(|input| input.token_ids).collect()
}

/// `Tokenizer::decode` on the one-token sequence `[id]`, skipping special
/// tokens and cleaning up tokenization spaces.  The contract only gives the
/// text its name.
#[verifier::external_body]
pub(crate) fn decode_token(tokenizer: &BertTokenizer, id: i64) -> (text: String)
    ensures
        text@ == token_text(tokenizer, id),
{
    Tokenizer::decode(tokenizer, vec![id], true, true)
}

} // verus!
