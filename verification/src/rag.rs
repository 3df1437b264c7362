//! The session around a local PDF extraction flow: an in-memory document
//! store plus the handle to the most recently written processed-text file.
//! Ingestion extracts and normalizes text (the extraction and the file write
//! themselves are the caller's, since they are I/O); retrieval reads the
//! processed text back and searches it for a context window.

use vstd::prelude::*;

use crate::errors::RagError;
use crate::normalize::normalize;
use crate::normalize::normalize_spec;
use crate::retrieve::retrieval_spec;
use crate::retrieve::retrieve_context;
use crate::store::DocumentStore;

verus! {

/// A retrieval-augmented-generation session: created empty, mutated only by
/// explicit add operations, discarded when the session ends.
pub struct RAGSystem {
    document_store: DocumentStore,
    processed_text_path: Option<String>,
}

impl RAGSystem {
    /// The store invariant: document identifiers are unique.
    pub closed spec fn wf(&self) -> bool {
        self.document_store.wf()
    }

    /// The identifier-to-content mapping of the session.
    pub closed spec fn docs(&self) -> Map<Seq<char>, Seq<char>> {
        self.document_store.contents()
    }

    /// The path of the most recently written processed-text file, if any
    /// ingestion has persisted one.
    pub closed spec fn processed_path(&self) -> Option<Seq<char>> {
        match self.processed_text_path {
            Option::None => Option::<Seq<char>>::None,
            Option::Some(ref p) => Option::Some(p@),
        }
    }

    /// Creates a session with an empty store and no processed-text handle.
    pub fn new() -> (r: RAGSystem)
        ensures
            r.wf(),
            r.docs() == Map::<Seq<char>, Seq<char>>::empty(),
            r.processed_path() is None,
    {
        RAGSystem { document_store: DocumentStore::new(), processed_text_path: None }
    }

    /// Stores `content` under `doc_id`; re-adding an existing identifier
    /// overwrites its content.
    pub fn add_document(&mut self, doc_id: &str, content: &str)
        requires
            old(self).wf(),
        ensures
            final(self).wf(),
            final(self).docs() == old(self).docs().insert(doc_id@, content@),
            final(self).processed_path() == old(self).processed_path(),
    {
        self.document_store.add(doc_id, content);
    }

    /// Looks a document up by its identifier.
    pub fn get_document(&self, doc_id: &str) -> (r: Option<&String>)
        requires
            self.wf(),
        ensures
            r is Some <==> self.docs().contains_key(doc_id@),
            r is Some ==> r.unwrap()@ == self.docs()[doc_id@],
    {
        self.document_store.get(doc_id)
    }

    /// Normalizes extracted text for persistence; whitespace runs collapse
    /// to single spaces and the ends are trimmed.
    pub fn clean_text(content: &str) -> (r: String)
        ensures
            r@ == normalize_spec(content@),
    {
        normalize(content)
    }

    /// Records a PDF ingestion once the caller has extracted the text and
    /// written its normalized form to `output_path`: the handle moves to
    /// that file and the normalized content is stored under the PDF path.
    /// Returns whether the extraction came back empty — a warning signal,
    /// not an error: ingestion proceeds with zero content.
    pub fn add_pdf_document(&mut self, pdf_path: &str, output_path: &str, extracted_text: &str)
        -> (was_empty: bool)
        requires
            old(self).wf(),
        ensures
            final(self).wf(),
            final(self).docs() == old(self).docs().insert(
                pdf_path@,
                normalize_spec(extracted_text@),
            ),
            final(self).processed_path() == Option::Some(output_path@),
            was_empty <==> extracted_text@.len() == 0,
    {
        let was_empty = extracted_text.is_empty();
        let cleaned = normalize(extracted_text);
        self.processed_text_path = Some(output_path.to_owned());
        self.document_store.add(pdf_path, cleaned.as_str());
        was_empty
    }

    /// The path of the most recently written processed-text file, for the
    /// caller that reads it back.
    pub fn processed_file(&self) -> (r: Option<&String>)
        ensures
            r is Some <==> self.processed_path() is Some,
            r is Some ==> r.unwrap()@ == self.processed_path().unwrap(),
    {
        self.processed_text_path.as_ref()
    }

    /// Searches `content` — the processed text the caller read back from the
    /// handle — for a context window around the first matching query
    /// keyword. Fails with `MissingContext` exactly when no ingestion has
    /// ever populated the handle: "nothing to search" is an error, while
    /// "searched and found nothing" is the empty result.
    pub fn retrieve(&self, content: &str, query: &str) -> (r: Result<String, RagError>)
        requires
            self.wf(),
        ensures
            r is Err <==> self.processed_path() is None,
            r is Err ==> r.unwrap_err() == RagError::MissingContext,
            (r is Ok && content@.len() == 0) ==> r.unwrap()@ == Seq::<char>::empty(),
            (r is Ok && content@.len() > 0) ==> r.unwrap()@ == retrieval_spec(content@, query@),
    {
        match &self.processed_text_path {
            None => Err(RagError::MissingContext),
            Some(_) => {
                if content.is_empty() {
                    Ok(String::new())
                } else {
                    Ok(retrieve_context(content, query))
                }
            },
        }
    }
}

} // verus!
