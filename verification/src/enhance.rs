//! What the prompt enhancer is asked, what it answers, and the events of an
//! answer that comes in pieces.

use vstd::prelude::*;

verus! {

/// A prompt to enhance.
pub struct EnhanceRequest {
    pub prompt: String,
    pub project_root_path: Option<String>,
    pub current_file_path: Option<String>,
    pub include_history: bool,
}

/// The enhanced prompt, or why there is none.
pub struct EnhanceResponse {
    pub enhanced_prompt: String,
    pub original_prompt: String,
    pub success: bool,
    pub error: Option<String>,
    /// How many retained addresses went with the request.
    pub blob_count: usize,
    pub history_count: usize,
}

/// One event of an answer that comes in pieces: `chunk`, `complete` or
/// `error`.
pub struct EnhanceStreamEvent {
    pub event_type: String,
    pub chunk: Option<String>,
    pub accumulated_text: Option<String>,
    pub enhanced_prompt: Option<String>,
    pub error: Option<String>,
    pub progress: u8,
}

/// One message of the conversation so far.
pub struct ChatHistoryMessage {
    pub role: String,
    pub content: String,
    pub timestamp: String,
}

/// A piece of text.
pub struct TextNode {
    pub content: String,
}

/// One node of a request of the conversation so far.
pub struct ChatHistoryRequestNode {
    pub id: i32,
    pub node_type: i32,
    pub text_node: Option<TextNode>,
}

/// Whether the conversation so far goes with a request that does not say.
pub fn default_include_history() -> (out: bool)
    ensures
        out,
{
    true
}

impl EnhanceStreamEvent {
    /// A piece `text` arrived; `accumulated` is all that arrived so far.
    pub fn chunk(text: &str, accumulated: &str, progress: u8) -> (out: Self)
        ensures
            out.event_type@ == "chunk"@,
            out.chunk matches Some(c) && c@ == text@,
            out.accumulated_text matches Some(a) && a@ == accumulated@,
            out.enhanced_prompt is None,
            out.error is None,
            out.progress == progress,
    {
        EnhanceStreamEvent {
            event_type: "chunk".to_owned(),
            chunk: Some(text.to_owned()),
            accumulated_text: Some(accumulated.to_owned()),
            enhanced_prompt: None,
            error: None,
            progress,
        }
    }

    /// The answer is complete.
    pub fn complete(enhanced_prompt: &str, full_text: &str) -> (out: Self)
        ensures
            out.event_type@ == "complete"@,
            out.chunk is None,
            out.accumulated_text matches Some(a) && a@ == full_text@,
            out.enhanced_prompt matches Some(p) && p@ == enhanced_prompt@,
            out.error is None,
            out.progress == 100,
    {
        EnhanceStreamEvent {
            event_type: "complete".to_owned(),
            chunk: None,
            accumulated_text: Some(full_text.to_owned()),
            enhanced_prompt: Some(enhanced_prompt.to_owned()),
            error: None,
            progress: 100,
        }
    }

    /// The answer failed.
    pub fn error(message: &str) -> (out: Self)
        ensures
            out.event_type@ == "error"@,
            out.chunk is None,
            out.accumulated_text is None,
            out.enhanced_prompt is None,
            out.error matches Some(e) && e@ == message@,
            out.progress == 0,
    {
        EnhanceStreamEvent {
            event_type: "error".to_owned(),
            chunk: None,
            accumulated_text: None,
            enhanced_prompt: None,
            error: Some(message.to_owned()),
            progress: 0,
        }
    }
}

} // verus!
