//! Prompt composition for the chat backend: a retrieved context window and
//! the query are folded into one single-shot chat message.

use vstd::prelude::*;

verus! {

/// Composes the chat message: the raw query when no context was retrieved,
/// otherwise a prompt of the fixed shape
/// `"Context: {context}\n\nQuestion: {query}"`.
pub fn compose_prompt(query: &str, context: &str) -> (r: String)
    ensures
        context@.len() == 0 ==> r@ == query@,
        context@.len() > 0 ==> r@ == "Context: "@ + context@ + "\n\nQuestion: "@ + query@,
{
    if context.is_empty() {
        query.to_owned()
    } else {
        let mut s = String::from_str("Context: ");
        s.append(context);
        s.append("\n\nQuestion: ");
        s.append(query);
        proof {
            assert(s@ =~= "Context: "@ + context@ + "\n\nQuestion: "@ + query@);
        }
        s
    }
}

} // verus!
