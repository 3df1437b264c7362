//! A minimal retrieval-augmented-generation pipeline: ingest text (including
//! text extracted from PDFs), store it keyed by an identifier, answer a query
//! by locating a lexical context window around a matching keyword, and compose
//! a prompt that forwards that window together with the query to a chat
//! backend.

use vstd::prelude::*;

pub mod errors;
pub mod normalize;
pub mod store;
pub mod retrieve;
pub mod protocol;
pub mod compose;
pub mod rag;
pub mod ollama;

verus! {


} // verus!
