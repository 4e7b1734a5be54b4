//! The request that forwards a log line to the xAI Grok API.
//!
//! Each formatted record is sent as the user message of a chat completion
//! request, after a fixed system message. This module builds the request
//! body and the authorization header; sending it is the caller's part.

use vstd::prelude::*;

use crate::formatter::json::{json_quote, quote_json};
use crate::text::push_char;

verus! {

/// The endpoint the requests are posted to.
pub const X_GROK_URL: &'static str = "https://api.x.ai/v1/chat/completions";

/// The model the requests name.
pub const X_GROK_MODEL: &'static str = "grok-2";

/// The system message that precedes each log line.
pub const X_GROK_SYSTEM_PROMPT: &'static str = "You are a log analyzer. Please ingest this log silently.";

/// The request body for a formatted log line whose JSON string literal is
/// `content`: `{"messages":[{"content":<system>,"role":"system"},
/// {"content":<content>,"role":"user"}],"model":"grok-2"}` (object keys in
/// sorted order).
pub open spec fn x_grok_body(content: Seq<char>) -> Seq<char> {
    "{\"messages\":[{\"content\":\"You are a log analyzer. Please ingest this log silently.\",\"role\":\"system\"},{\"content\":"@
        + content + ",\"role\":\"user\"}],\"model\":\"grok-2\"}"@
}

/// The JSON request body that forwards `formatted`, when it can be encoded.
pub fn x_grok_payload(formatted: &str) -> (r: Result<String, serde_json::Error>)
    ensures
        r matches Ok(p) && p@ == x_grok_body(json_quote(formatted@)),
{
    proof {
        reveal_strlit(
            "{\"messages\":[{\"content\":\"You are a log analyzer. Please ingest this log silently.\",\"role\":\"system\"},{\"content\":",
        );
    }
    let content = quote_json(formatted)?;
    let mut body = String::new();
    body.append(
        "{\"messages\":[{\"content\":\"You are a log analyzer. Please ingest this log silently.\",\"role\":\"system\"},{\"content\":",
    );
    body.append(content.as_str());
    body.append(",\"role\":\"user\"}],\"model\":\"grok-2\"}");
    Ok(body)
}

/// The value of the `Authorization` header for `api_key`: `Bearer <key>`.
pub fn x_grok_authorization(api_key: &str) -> (h: String)
    ensures
        h@ == seq!['B', 'e', 'a', 'r', 'e', 'r', ' '] + api_key@,
{
    proof {
        reveal_strlit("Bearer");
        assert("Bearer"@ =~= seq!['B', 'e', 'a', 'r', 'e', 'r']);
    }
    let mut h = String::new();
    h.append("Bearer");
    push_char(&mut h, ' ');
    h.append(api_key);
    assert(h@ =~= seq!['B', 'e', 'a', 'r', 'e', 'r', ' '] + api_key@);
    h
}

} // verus!
