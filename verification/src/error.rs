//! The engine's error type.

use vstd::prelude::*;
use vstd::string::StringExecFns;
use crate::text::{decimal, owned, render_u64};

verus! {

/// A failure of the engine. A variant that carries a `String` carries the whole
/// rendered message.
#[derive(Debug, Clone)]
pub enum Error {
    Database(String),
    Extraction(String),
    Resolution(String),
    Llm(String),
    Embedding(String),
    Config(String),
    Search(String),
    Parse(String),
    Serialization(String),
    Other(String),
    /// A zero embedding dimension was configured.
    EmbeddingDimZero,
    /// The window maximum was smaller than its minimum.
    TokenWindowInvalid { min: usize, got: usize },
}

impl Error {
    /// The rendered message.
    pub open spec fn text(self) -> Seq<char> {
        match self {
            Error::Database(m) => m@,
            Error::Extraction(m) => m@,
            Error::Resolution(m) => m@,
            Error::Llm(m) => m@,
            Error::Embedding(m) => m@,
            Error::Config(m) => m@,
            Error::Search(m) => m@,
            Error::Parse(m) => m@,
            Error::Serialization(m) => m@,
            Error::Other(m) => m@,
            Error::EmbeddingDimZero => "embedding_dim must be greater than 0"@,
            Error::TokenWindowInvalid { min, got } => "max_words must be at least min_words ("@
                + decimal(min as nat) + "), got "@ + decimal(got as nat),
        }
    }

    /// Renders the message.
    pub fn message(&self) -> (r: String)
        ensures
            r@ == self.text(),
    {
        match self {
            Error::Database(m) => m.clone(),
            Error::Extraction(m) => m.clone(),
            Error::Resolution(m) => m.clone(),
            Error::Llm(m) => m.clone(),
            Error::Embedding(m) => m.clone(),
            Error::Config(m) => m.clone(),
            Error::Search(m) => m.clone(),
            Error::Parse(m) => m.clone(),
            Error::Serialization(m) => m.clone(),
            Error::Other(m) => m.clone(),
            Error::EmbeddingDimZero => owned("embedding_dim must be greater than 0"),
            Error::TokenWindowInvalid { min, got } => {
                let mut out: String = owned("max_words must be at least min_words (");
                out.append(render_u64(*min as u64).as_str());
                out.append("), got ");
                out.append(render_u64(*got as u64).as_str());
                out
            },
        }
    }
}

/// The message of an error that carries one is that message, whole and unchanged, and the two
/// others say what was configured.
pub proof fn law_message_is_carried(e: Error)
    ensures
        match e {
            Error::EmbeddingDimZero => e.text() == "embedding_dim must be greater than 0"@,
            Error::TokenWindowInvalid { min, got } => e.text()
                == "max_words must be at least min_words ("@ + decimal(min as nat) + "), got "@
                + decimal(got as nat),
            Error::Database(m)
            | Error::Extraction(m)
            | Error::Resolution(m)
            | Error::Llm(m)
            | Error::Embedding(m)
            | Error::Config(m)
            | Error::Search(m)
            | Error::Parse(m)
            | Error::Serialization(m)
            | Error::Other(m) => e.text() == m@,
        },
{
}

}
