//! The session around a remote backend: documents are stored in memory, PDF
//! extraction and keyword queries are answered by HTTP endpoints of a
//! configured base URL, and embeddings are generated per document (computed
//! by the backend, not retained). The HTTP calls themselves are the
//! caller's, since they are I/O; this type keeps the session state and
//! decides what each response means.

use vstd::prelude::*;

use crate::errors::RagError;
use crate::protocol::parse_query_response;
use crate::protocol::string_field_of;
use crate::store::DocumentStore;

verus! {

/// A session against a remote backend: document store, processed-text
/// handle, and the backend's base URL and bearer credential.
pub struct OllamaMCP {
    document_store: DocumentStore,
    processed_text_path: Option<String>,
    ollama_api_url: String,
    ollama_api_key: String,
}

impl OllamaMCP {
    /// The store invariant: document identifiers are unique.
    pub closed spec fn wf(&self) -> bool {
        self.document_store.wf()
    }

    /// The identifier-to-content mapping of the session.
    pub closed spec fn docs(&self) -> Map<Seq<char>, Seq<char>> {
        self.document_store.contents()
    }

    /// The path of the most recently written processed-text file, if any.
    pub closed spec fn processed_path(&self) -> Option<Seq<char>> {
        match self.processed_text_path {
            Option::None => Option::<Seq<char>>::None,
            Option::Some(ref p) => Option::Some(p@),
        }
    }

    /// The configured base URL of the backend.
    pub closed spec fn url(&self) -> Seq<char> {
        self.ollama_api_url@
    }

    /// The caller-supplied bearer credential.
    pub closed spec fn key(&self) -> Seq<char> {
        self.ollama_api_key@
    }

    /// Creates a session with an empty store, no processed-text handle, and
    /// the given backend credentials.
    pub fn new(ollama_api_url: &str, ollama_api_key: &str) -> (r: OllamaMCP)
        ensures
            r.wf(),
            r.docs() == Map::<Seq<char>, Seq<char>>::empty(),
            r.processed_path() is None,
            r.url() == ollama_api_url@,
            r.key() == ollama_api_key@,
    {
        OllamaMCP {
            document_store: DocumentStore::new(),
            processed_text_path: None,
            ollama_api_url: ollama_api_url.to_owned(),
            ollama_api_key: ollama_api_key.to_owned(),
        }
    }

    /// The backend base URL, for the caller that issues the requests.
    pub fn api_url(&self) -> (r: &String)
        ensures
            r@ == self.url(),
    {
        &self.ollama_api_url
    }

    /// The bearer credential, for the caller that issues the requests.
    pub fn api_key(&self) -> (r: &String)
        ensures
            r@ == self.key(),
    {
        &self.ollama_api_key
    }

    /// Stores `content` under `doc_id`; re-adding an existing identifier
    /// overwrites its content. The embedding the backend generates for the
    /// document is computed by the caller's request and not retained here.
    pub fn add_document(&mut self, doc_id: &str, content: &str)
        requires
            old(self).wf(),
        ensures
            final(self).wf(),
            final(self).docs() == old(self).docs().insert(doc_id@, content@),
            final(self).processed_path() == old(self).processed_path(),
            final(self).url() == old(self).url(),
            final(self).key() == old(self).key(),
    {
        self.document_store.add(doc_id, content);
    }

    /// Looks a document up by its identifier.
    pub fn get_document(&self, doc_id: &str) -> (r: Option<&String>)
        requires
            self.wf(),
        ensures
            r is Some <==> self.docs().contains_key(doc_id@),
            r is Some ==> r.unwrap()@ == self.docs()[doc_id@],
    {
        self.document_store.get(doc_id)
    }

    /// Records a PDF ingestion once the caller has obtained the extracted
    /// text and written it to `output_path`: the handle moves to that file
    /// and the extracted text is stored under the PDF path. Returns whether
    /// the extraction came back empty — a warning signal, not an error.
    pub fn add_pdf_document(&mut self, pdf_path: &str, output_path: &str, extracted_text: &str)
        -> (was_empty: bool)
        requires
            old(self).wf(),
        ensures
            final(self).wf(),
            final(self).docs() == old(self).docs().insert(pdf_path@, extracted_text@),
            final(self).processed_path() == Option::Some(output_path@),
            final(self).url() == old(self).url(),
            final(self).key() == old(self).key(),
            was_empty <==> extracted_text@.len() == 0,
    {
        let was_empty = extracted_text.is_empty();
        self.processed_text_path = Some(output_path.to_owned());
        self.document_store.add(pdf_path, extracted_text);
        was_empty
    }

    /// True when an ingestion has ever populated this session — the
    /// precondition for retrieval to have anything to search.
    pub fn has_context(&self) -> (r: bool)
        requires
            self.wf(),
        ensures
            r <==> !(self.docs() == Map::<Seq<char>, Seq<char>>::empty()
                && self.processed_path() is None),
    {
        let stored = !self.document_store.is_empty();
        stored || self.processed_text_path.is_some()
    }

    /// Decides what a query-endpoint response means for this session. Fails
    /// with `MissingContext` exactly when nothing was ever ingested;
    /// otherwise reads the `result` field of the response body, which may
    /// well be the empty string — "no relevant content" is not an error.
    pub fn retrieve(&self, response_body: &str) -> (r: Result<String, RagError>)
        requires
            self.wf(),
        ensures
            (self.docs() == Map::<Seq<char>, Seq<char>>::empty() && self.processed_path()
                is None) <==> (r is Err && r.unwrap_err() == RagError::MissingContext),
            r is Err ==> (r.unwrap_err() == RagError::MissingContext || r.unwrap_err()
                == RagError::Protocol),
            (r is Ok || r.unwrap_err() == RagError::Protocol) ==> (r is Ok
                <==> string_field_of(response_body@, "result"@) is Some),
            r is Ok ==> r.unwrap()@ == string_field_of(response_body@, "result"@).unwrap(),
    {
        if !self.has_context() {
            return Err(RagError::MissingContext);
        }
        parse_query_response(response_body)
    }
}

} // verus!
