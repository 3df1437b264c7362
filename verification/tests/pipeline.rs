use rag_pipeline::compose::compose_prompt;
use rag_pipeline::errors::RagError;
use rag_pipeline::normalize::normalize;
use rag_pipeline::ollama::OllamaMCP;
use rag_pipeline::protocol::parse_query_response;
use rag_pipeline::protocol::parse_text_response;
use rag_pipeline::rag::RAGSystem;
use rag_pipeline::retrieve::find_first;
use rag_pipeline::retrieve::retrieve_context;
use rag_pipeline::retrieve::split_tokens;
use rag_pipeline::store::DocumentStore;

#[test]
fn normalize_collapses_runs() {
    assert_eq!(normalize("  a \t b\n\nc  "), "a b c");
    assert_eq!(normalize("one two"), "one two");
    assert_eq!(normalize("\r\n x \r\n"), "x");
}

#[test]
fn normalize_idempotent_concrete() {
    let raw = " The  quick\tbrown\n\nfox ";
    let once = normalize(raw);
    let twice = normalize(&once);
    assert_eq!(once, twice);
    assert_eq!(once, "The quick brown fox");
}

#[test]
fn normalize_handles_unicode_whitespace() {
    assert_eq!(normalize("a\u{00A0}b"), "a b");
    assert_eq!(normalize("\u{00A0}\u{00A0}"), "");
    assert_eq!(normalize("\u{2003}x\u{2028}\u{3000}y\u{0085}"), "x y");
}

#[test]
fn tokens_split_on_unicode_whitespace() {
    let toks = split_tokens("a\u{00A0}b\u{2029}c");
    let toks: Vec<&str> = toks.iter().map(|s| s.as_str()).collect();
    assert_eq!(toks, vec!["a", "b", "c"]);
    // The second query token matches even though the separator is a
    // no-break space.
    assert_eq!(retrieve_context("b", "a\u{00A0}b"), "b");
}

#[test]
fn normalize_degenerate_inputs() {
    assert_eq!(normalize(""), "");
    assert_eq!(normalize(" \t\n\r"), "");
    assert_eq!(normalize("a"), "a");
}

#[test]
fn store_add_get_overwrite() {
    let mut store = DocumentStore::new();
    assert!(store.get("d1").is_none());
    store.add("d1", "first");
    store.add("d2", "second");
    assert_eq!(store.get("d1").unwrap().as_str(), "first");
    assert_eq!(store.get("d2").unwrap().as_str(), "second");
    store.add("d1", "replaced");
    assert_eq!(store.get("d1").unwrap().as_str(), "replaced");
    assert!(store.get("d3").is_none());
    assert!(!store.is_empty());
}

#[test]
fn split_tokens_order_and_duplicates() {
    let toks = split_tokens("  apple banana  apple\tcherry ");
    let toks: Vec<&str> = toks.iter().map(|s| s.as_str()).collect();
    assert_eq!(toks, vec!["apple", "banana", "apple", "cherry"]);
    assert!(split_tokens("   ").is_empty());
    assert!(split_tokens("").is_empty());
}

#[test]
fn find_first_lowest_position() {
    assert_eq!(find_first("hello world", "world"), Some(6));
    assert_eq!(find_first("abab", "ab"), Some(0));
    assert_eq!(find_first("abcd", "zx"), None);
    assert_eq!(find_first("short", "much longer than content"), None);
}

#[test]
fn window_clamps_to_both_ends() {
    // The whole content is shorter than the window, so the window is the
    // full original-case content.
    let content = "Michael Harditya is a student.";
    let result = retrieve_context(content, "Michael");
    assert_eq!(result, content);
}

#[test]
fn retrieval_is_case_insensitive() {
    let content = "Michael Harditya is a student.";
    assert_eq!(retrieve_context(content, "MICHAEL"), content);
    assert_eq!(retrieve_context(content, "harditya"), content);
}

#[test]
fn first_query_token_with_a_match_wins() {
    // "apple" is absent, so the window centers on the "banana" match even
    // though "apple" comes first in the query.
    let content = "I like banana very much.";
    let result = retrieve_context(content, "apple banana");
    assert_eq!(result, content);
}

#[test]
fn no_token_matches_yields_empty() {
    assert_eq!(retrieve_context("some stored content here", "zebra quagga"), "");
    assert_eq!(retrieve_context("anything", ""), "");
    assert_eq!(retrieve_context("anything", " \t "), "");
}

#[test]
fn window_is_three_hundred_each_side() {
    let mut content = String::new();
    for _ in 0..400 {
        content.push('x');
    }
    content.push_str("needle");
    for _ in 0..400 {
        content.push('y');
    }
    let result = retrieve_context(&content, "needle");
    // 300 before the match start, the 6-character match, 300 after its end.
    assert_eq!(result.len(), 606);
    assert_eq!(result, &content[100..706]);
    assert!(result.contains("needle"));
}

#[test]
fn window_clamps_at_start_only() {
    let mut content = String::from("needle");
    for _ in 0..400 {
        content.push('z');
    }
    let result = retrieve_context(&content, "needle");
    assert_eq!(result, &content[0..306]);
}

#[test]
fn window_clamps_at_end_only() {
    let mut content = String::new();
    for _ in 0..400 {
        content.push('z');
    }
    content.push_str("needle");
    let result = retrieve_context(&content, "needle");
    assert_eq!(result, &content[100..406]);
}

#[test]
fn empty_extraction_ingests_with_warning() {
    let mut sys = RAGSystem::new();
    let was_empty = sys.add_pdf_document("doc.pdf", "out.txt", "");
    assert!(was_empty);
    // The store now holds an empty-content document under the PDF path.
    assert_eq!(sys.get_document("doc.pdf").unwrap().as_str(), "");
    // The session has a processed-text handle; searching the empty
    // processed text yields the empty result, not an error.
    let r = sys.retrieve("", "anything").unwrap();
    assert_eq!(r, "");
}

#[test]
fn nonempty_extraction_ingests_without_warning() {
    let mut sys = RAGSystem::new();
    let was_empty = sys.add_pdf_document("doc.pdf", "out.txt", " some   extracted\ttext ");
    assert!(!was_empty);
    // The store holds the normalized extracted content.
    assert_eq!(sys.get_document("doc.pdf").unwrap().as_str(), "some extracted text");
    let r = sys.retrieve("some extracted text", "extracted").unwrap();
    assert_eq!(r, "some extracted text");
}

#[test]
fn retrieval_before_any_ingestion_is_missing_context() {
    let sys = RAGSystem::new();
    let r = sys.retrieve("irrelevant", "query");
    assert_eq!(r.unwrap_err(), RagError::MissingContext);
}

#[test]
fn remote_retrieval_before_any_ingestion_is_missing_context() {
    let sys = OllamaMCP::new("http://localhost:1234", "key-for-tests");
    let r = sys.retrieve("{\"result\": \"ignored\"}");
    assert_eq!(r.unwrap_err(), RagError::MissingContext);
}

#[test]
fn remote_retrieval_reads_result_field() {
    let mut sys = OllamaMCP::new("http://localhost:1234", "k");
    sys.add_document("d1", "content");
    assert!(sys.has_context());
    assert_eq!(sys.retrieve("{\"result\": \"hello\"}").unwrap(), "hello");
    assert_eq!(sys.retrieve("{\"result\": \"\"}").unwrap(), "");
    assert_eq!(sys.retrieve("not json").unwrap_err(), RagError::Protocol);
    assert_eq!(sys.retrieve("{\"other\": 1}").unwrap_err(), RagError::Protocol);
    assert_eq!(sys.retrieve("{\"result\": 7}").unwrap_err(), RagError::Protocol);
}

#[test]
fn ollama_session_records_pdf_ingestion() {
    let mut sys = OllamaMCP::new("http://localhost:1234", "k");
    assert!(!sys.has_context());
    let was_empty = sys.add_pdf_document("a.pdf", "o.txt", "hello world");
    assert!(!was_empty);
    assert!(sys.has_context());
    assert_eq!(sys.get_document("a.pdf").unwrap().as_str(), "hello world");
    assert!(sys.get_document("other.pdf").is_none());
    assert_eq!(sys.api_url().as_str(), "http://localhost:1234");
    assert_eq!(sys.api_key().as_str(), "k");
}

#[test]
fn parse_text_response_cases() {
    assert_eq!(parse_text_response("{\"text\": \"abc\"}").unwrap(), "abc");
    assert_eq!(parse_text_response("{\"text\": \"\"}").unwrap(), "");
    assert_eq!(parse_text_response("{}").unwrap_err(), RagError::Protocol);
    assert_eq!(parse_text_response("{\"text\": 3}").unwrap_err(), RagError::Protocol);
    assert_eq!(parse_text_response("garbage").unwrap_err(), RagError::Protocol);
}

#[test]
fn parse_query_response_cases() {
    assert_eq!(parse_query_response("{\"result\": \"r\"}").unwrap(), "r");
    assert_eq!(parse_query_response("{\"text\": \"r\"}").unwrap_err(), RagError::Protocol);
}

#[test]
fn compose_prompt_shapes() {
    assert_eq!(compose_prompt("what is RAG?", ""), "what is RAG?");
    assert_eq!(
        compose_prompt("what is RAG?", "retrieval augments generation"),
        "Context: retrieval augments generation\n\nQuestion: what is RAG?"
    );
}

#[test]
fn rag_clean_text_matches_normalize() {
    assert_eq!(RAGSystem::clean_text("  a   b "), "a b");
    assert_eq!(RAGSystem::clean_text(""), "");
}
