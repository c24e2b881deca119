//! The canonical conversation messages the library reads: roles, origins and content.
use vstd::prelude::*;

verus! {

/// Who a message is from.
#[derive(Clone, Copy, Debug, PartialEq, Eq)]
pub enum Role {
    System,
    User,
    Assistant,
    Tool,
}

/// Where a message came from.
#[derive(Clone, Copy, Debug, PartialEq, Eq)]
pub enum Origin {
    Prompt,
    User,
    Assistant,
    Runtime,
    Tool,
}

/// One part of a message's content.
pub enum ContentPart {
    Text { text: String },
    /// A part that is not text (such as an image), by its media type.
    Media { mime_type: String },
}

/// The content of a message.
pub enum MessageContent {
    Parts { parts: Vec<ContentPart> },
    /// Content that is not a list of parts, kept as its JSON text.
    Structured { json: String },
}

/// The terminal result of a background task that a runtime message delivers.
pub struct TerminalCompletion {
    pub task_id: String,
    pub tool_call_id: String,
    pub kind: String,
    pub status: String,
    pub payload_digest: Option<String>,
    pub event_id: String,
}

/// A message of a conversation.
pub struct CanonicalMessage {
    pub id: String,
    pub role: Role,
    pub origin: Origin,
    pub content: MessageContent,
    /// The runtime event a runtime message was compiled from.
    pub runtime_event_id: Option<String>,
    /// The background result a runtime message delivers.
    pub terminal_completion: Option<TerminalCompletion>,
}

impl CanonicalMessage {
    /// A message of one text part.
    pub fn text(id: &str, role: Role, origin: Origin, text: &str) -> (r: CanonicalMessage)
        ensures
            r.id@ == id@,
            r.role == role,
            r.origin == origin,
            r.runtime_event_id is None,
            r.terminal_completion is None,
            match r.content {
                MessageContent::Parts { parts } => parts@.len() == 1 && match parts@[0] {
                    ContentPart::Text { text: t } => t@ == text@,
                    _ => false,
                },
                _ => false,
            },
    {
        let mut parts: Vec<ContentPart> = Vec::new();
        parts.push(ContentPart::Text { text: crate::text::copy(text) });
        CanonicalMessage {
            id: crate::text::copy(id),
            role,
            origin,
            content: MessageContent::Parts { parts },
            runtime_event_id: None,
            terminal_completion: None,
        }
    }
}

} // verus!
