//! Chat messages and the request value objects that one function-call
//! turn is built from.

use vstd::prelude::*;

use crate::llama::LlamaFunctionCallSignature;
use crate::tool::ToolInfo;

verus! {

/// The speaker of one chat message.
#[derive(Clone, Copy, PartialEq, Eq, Structural, Debug)]
pub enum ChatRole {
    System,
    User,
    Assistant,
}

/// One chat message: a role and its text content. Immutable once built;
/// an ordered sequence of them forms a conversation.
#[derive(Clone, Debug)]
pub struct ChatMessage {
    pub role: ChatRole,
    pub content: String,
}

/// The mathematical model of a chat message: its role and the character
/// sequence of its content.
pub ghost struct MessageModel {
    pub role: ChatRole,
    pub content: Seq<char>,
}

impl View for ChatMessage {
    type V = MessageModel;

    open spec fn view(&self) -> MessageModel {
        MessageModel { role: self.role, content: self.content@ }
    }
}

impl DeepView for ChatMessage {
    type V = MessageModel;

    open spec fn deep_view(&self) -> MessageModel {
        self.view()
    }
}

impl ChatMessage {
    /// Builds a system-role message with the given content.
    pub fn system(content: String) -> (m: ChatMessage)
        ensures
            m@ == (MessageModel { role: ChatRole::System, content: content@ }),
    {
        ChatMessage { role: ChatRole::System, content }
    }

    /// Builds a user-role message with the given content.
    pub fn user(content: String) -> (m: ChatMessage)
        ensures
            m@ == (MessageModel { role: ChatRole::User, content: content@ }),
    {
        ChatMessage { role: ChatRole::User, content }
    }

    /// Builds an assistant-role message with the given content.
    pub fn assistant(content: String) -> (m: ChatMessage)
        ensures
            m@ == (MessageModel { role: ChatRole::Assistant, content: content@ }),
    {
        ChatMessage { role: ChatRole::Assistant, content }
    }

    /// A copy of this message, equal to it in the model.
    pub fn duplicate(&self) -> (m: ChatMessage)
        ensures
            m@ == self@,
    {
        ChatMessage { role: self.role, content: self.content.clone() }
    }
}

/// One request to the chat transport: the model to address, the
/// conversation to send, and whether the reply may stream.
#[derive(Clone, Debug)]
pub struct ChatMessageRequest {
    pub model_name: String,
    pub messages: Vec<ChatMessage>,
    pub stream: bool,
}

impl ChatMessageRequest {
    /// Builds a non-streaming request for the given model and messages.
    pub fn new(model_name: String, messages: Vec<ChatMessage>) -> (r: ChatMessageRequest)
        ensures
            r.model_name@ == model_name@,
            r.messages.deep_view() == messages.deep_view(),
            r.stream == false,
    {
        ChatMessageRequest { model_name, messages, stream: false }
    }
}

/// The value object for one function-call invocation: a conversation,
/// the active model, and the tools available to it.
#[derive(Clone, Debug)]
pub struct FunctionCallRequest {
    pub chat: ChatMessageRequest,
    pub tools: Vec<ToolInfo>,
}

impl FunctionCallRequest {
    /// Bundles a conversation, a model name, and a tool set.
    pub fn new(model_name: String, messages: Vec<ChatMessage>, tools: Vec<ToolInfo>) -> (r:
        FunctionCallRequest)
        ensures
            r.chat.model_name@ == model_name@,
            r.chat.messages.deep_view() == messages.deep_view(),
            r.chat.stream == false,
            r.tools.deep_view() == tools.deep_view(),
    {
        FunctionCallRequest { chat: ChatMessageRequest::new(model_name, messages), tools }
    }
}

/// What the assistant's turn carried once decoded: either the call
/// signatures extracted from it, or its raw message.
#[derive(Clone, Debug)]
pub enum MessageKind {
    Parsed(Vec<LlamaFunctionCallSignature>),
    Unparsed(ChatMessage),
}

/// The outcome of one chat round handed back to the caller.
#[derive(Clone, Debug)]
pub struct ChatMessageResponse {
    /// The model that produced the reply.
    pub model: String,
    /// When the reply was produced, as reported by the transport.
    pub created_at: String,
    /// The decoded or raw assistant turn, if any.
    pub message: Option<MessageKind>,
    /// Whether the reply is complete.
    pub done: bool,
}

} // verus!
