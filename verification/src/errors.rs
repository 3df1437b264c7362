//! Error kinds of the pipeline. Every fallible operation reports one of
//! these; the empty retrieval result is deliberately not among them, since
//! "searched and found nothing" is not a failure.

use vstd::prelude::*;

verus! {

/// The error kinds a pipeline operation can report.
#[derive(Clone, Copy, Debug, PartialEq, Eq, Structural)]
pub enum RagError {
    /// A file could not be opened, read or written.
    Io,
    /// A local PDF text extraction failed because the document structure
    /// could not be decoded.
    ExtractionParse,
    /// An HTTP request failed at the transport level.
    Network,
    /// A remote backend answered with a body that is not valid JSON or
    /// lacks the expected field (or has it with the wrong type).
    Protocol,
    /// Retrieval was invoked on a session into which nothing has ever been
    /// ingested: there is nothing to search, which is distinct from a
    /// search that found nothing.
    MissingContext,
    /// The chat backend call failed; the operation aborts with no fallback.
    ChatService,
}

} // verus!
