//! The guest's chat service and the plain data of its messages.

use vstd::prelude::*;

verus! {

/// The chat service that the guest offers. It holds no state.
#[allow(clippy::upper_case_acronyms)]
#[derive(Clone, Copy, Debug, PartialEq, Eq, Structural)]
pub struct LLM;

impl LLM {
    pub fn new() -> (service: Self)
        ensures
            service == LLM,
    {
        Self
    }
}

impl Default for LLM {
    fn default() -> (service: Self)
        ensures
            service == LLM,
    {
        Self
    }
}

/// Who a chat message is from.
#[derive(Clone, Copy, Debug, PartialEq, Eq, Structural)]
pub enum ChatRole {
    System,
    User,
    Assistant,
    Tool,
}

/// One message of a chat.
#[derive(Debug, Clone)]
pub struct ChatMessage {
    pub role: ChatRole,
    pub content: String,
}

/// The reply to a chat: either part may be absent.
#[derive(Debug, Clone)]
pub struct ChatResponse {
    pub content: Option<String>,
    pub reasoning_content: Option<String>,
}

} // verus!
