//! Text tokenizer adapter: text to one row of token ids, boundary markers
//! included, through a tokenizer loaded at startup.
use vstd::prelude::*;

verus! {

#[verifier::external_type_specification]
#[verifier::external_body]
pub struct ExTokenizer(tokenizers::Tokenizer);

/// A single row of token ids, as the model's text path takes it.
pub struct TokenSequence {
    pub ids: Vec<u32>,
}

impl TokenSequence {
    /// Rows in the sequence; always one.
    pub fn rows(&self) -> (r: usize)
        ensures
            r == 1,
    {
        1
    }

    /// Ids in the row.
    pub fn len(&self) -> (r: usize)
        ensures
            r == self.ids@.len(),
    {
        self.ids.len()
    }
}

/// Relies on tokenizers::Tokenizer::encode with `add_special_tokens` set, and
/// Encoding::get_ids. What comes back depends on the loaded vocabulary and
/// rules, so nothing is promised of it.
#[verifier::external_body]
fn encode_with_special_tokens(tokenizer: &tokenizers::Tokenizer, text: String) -> (r: Result<
    Vec<u32>,
    String,
>) {
    match tokenizer.encode(text, true) {
        Ok(encoding) => Ok(encoding.get_ids().to_vec()),
        Err(e) => Err(e.to_string()),
    }
}

/// Wraps the ids of an encoded text as one row.
pub fn token_row(ids: Vec<u32>) -> (r: TokenSequence)
    ensures
        r.ids@ == ids@,
{
    TokenSequence { ids }
}

/// Turns the encoder's outcome into the model's text input: ids become one
/// row, in the encoder's order; an encoder failure comes back with its
/// message, which the caller reports as an internal error.
pub fn tokenize(encoded: Result<Vec<u32>, String>) -> (r: Result<TokenSequence, String>)
    ensures
        match encoded {
            Ok(ids) => r matches Ok(t) && t.ids@ == ids@,
            Err(msg) => r matches Err(m) && m@ == msg@,
        },
{
    match encoded {
        Ok(ids) => Ok(token_row(ids)),
        Err(msg) => Err(msg),
    }
}

/// Encodes `sequence` with the boundary markers the model expects and hands
/// the outcome to `tokenize`. What the encoder returns depends on the loaded
/// vocabulary, so this promises only that mapping.
pub fn tokenize_text(sequence: String, tokenizer: &tokenizers::Tokenizer) -> (r: Result<
    TokenSequence,
    String,
>) {
    let encoded = encode_with_special_tokens(tokenizer, sequence);
    tokenize(encoded)
}

} // verus!
