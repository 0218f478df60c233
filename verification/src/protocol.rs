//! The items of a conversation with a model.

use vstd::prelude::*;

use crate::json::Json;

verus! {

/// A part of a message.
#[derive(Debug, PartialEq, Eq)]
pub enum ContentItem {
    InputText { text: String },
    OutputText { text: String },
    InputImage { image_url: String },
    InputAudio,
}

/// A part of a message between agents.
#[derive(Debug, PartialEq, Eq)]
pub enum AgentMessageInputContent {
    InputText { text: String },
    EncryptedContent,
}

/// A part of a model's reasoning.
#[derive(Debug, PartialEq, Eq)]
pub enum ReasoningItemContent {
    ReasoningText { text: String },
    Text { text: String },
}

/// What a tool gave back.
#[derive(Debug, PartialEq, Eq)]
pub struct FunctionCallOutputPayload {
    /// The output as text, where it has any.
    pub text: Option<String>,
}

impl FunctionCallOutputPayload {
    /// Output that is a text.
    pub fn from_text(text: String) -> (r: FunctionCallOutputPayload)
        ensures
            r.text == Some(text),
    {
        FunctionCallOutputPayload { text: Some(text) }
    }
}

/// An item of a conversation.
#[allow(inconsistent_fields)]
#[derive(Debug, PartialEq)]
pub enum ResponseItem {
    Message { role: String, content: Vec<ContentItem> },
    AgentMessage { content: Vec<AgentMessageInputContent> },
    Reasoning { content: Option<Vec<ReasoningItemContent>> },
    FunctionCall { name: String, namespace: Option<String>, arguments: String, call_id: String },
    /// A shell command; `action` is the command as JSON text.
    LocalShellCall { id: Option<String>, call_id: Option<String>, action: String },
    FunctionCallOutput { call_id: Option<String>, output: FunctionCallOutputPayload },
    CustomToolCall { call_id: String, name: String, input: String },
    CustomToolCallOutput { call_id: Option<String>, output: FunctionCallOutputPayload },
    ToolSearchCall,
    ToolSearchOutput { call_id: Option<String>, tools: Vec<Json> },
    AdditionalTools,
    WebSearchCall,
    ImageGenerationCall,
    Compaction,
    CompactionTrigger,
    ContextCompaction,
    Other,
}

/// Why a call to a model failed.
#[derive(Debug, PartialEq, Eq)]
pub enum ApiError {
    Stream(String),
    ContextWindowExceeded,
}

/// Where a session was started from, in the three ways in which that is written down.
#[derive(Debug, PartialEq)]
pub struct SessionSource {
    /// The source as a document.
    pub value: Json,
    /// The source as the debug output names it.
    pub debug: String,
    /// The source as it is shown.
    pub display: String,
    /// The session is an agent that another thread spawned.
    pub is_thread_spawn: bool,
}

} // verus!
