//! What can go wrong while a decoder is set up or a window is decoded.

use vstd::prelude::*;
use vstd::string::StringExecFns;

verus! {

/// A failure of the decoding engine itself; failures of the model are the
/// caller's.
#[derive(Debug)]
pub enum DecodeError {
    /// The tokenizer has no id for the token of this name.
    UnknownToken(String),
    /// The tokenizer has an id for none of the no-speech tokens.
    NoSpeechToken,
    /// The tokenizer could not turn token ids into text; its own words.
    Tokenizer(String),
    /// The tokenizer decodes with a step that can break down on some tokens.
    UnsupportedDecoder,
    /// A token was chosen that is never to be generated.
    SuppressedToken(u32),
    /// A timestamp was chosen right after a timestamp.
    TimestampAfterTimestamp(u32),
    /// The scores of a step left no token to choose.
    NoToken,
}

impl DecodeError {
    /// The text of the error, as it is logged.
    pub fn message(&self) -> (text: String)
        ensures
            text@ == match *self {
                DecodeError::UnknownToken(name) => "no token-id for "@ + name@,
                DecodeError::NoSpeechToken => "unable to find any non-speech token"@,
                DecodeError::Tokenizer(words) => words@,
                DecodeError::UnsupportedDecoder => "the decoder of the tokenizer is not supported"@,
                DecodeError::SuppressedToken(_) => "a suppressed token was chosen"@,
                DecodeError::TimestampAfterTimestamp(_) => "a timestamp was chosen after a timestamp"@,
                DecodeError::NoToken => "no token is left to choose"@,
            },
    {
        match self {
            DecodeError::UnknownToken(name) => String::from_str("no token-id for ").concat(
                name.as_str(),
            ),
            DecodeError::NoSpeechToken => String::from_str("unable to find any non-speech token"),
            DecodeError::Tokenizer(words) => words.clone(),
            DecodeError::UnsupportedDecoder => String::from_str(
                "the decoder of the tokenizer is not supported",
            ),
            DecodeError::SuppressedToken(_) => String::from_str("a suppressed token was chosen"),
            DecodeError::TimestampAfterTimestamp(_) => String::from_str(
                "a timestamp was chosen after a timestamp",
            ),
            DecodeError::NoToken => String::from_str("no token is left to choose"),
        }
    }
}

} // verus!
