//! The values exchanged with the chat service and with the application.

use vstd::prelude::*;

verus! {

/// Where the service is, how to authenticate, and which model to ask.
#[derive(Debug, PartialEq, Eq)]
pub struct ModelConfig {
    pub base_url: String,
    pub api_key: String,
    pub model: String,
}

pub struct ModelConfigView {
    pub base_url: Seq<char>,
    pub api_key: Seq<char>,
    pub model: Seq<char>,
}

impl View for ModelConfig {
    type V = ModelConfigView;

    open spec fn view(&self) -> ModelConfigView {
        ModelConfigView { base_url: self.base_url@, api_key: self.api_key@, model: self.model@ }
    }
}

impl ModelConfig {
    /// A copy that later changes of the configuration do not reach.
    pub fn snapshot(&self) -> (copy: ModelConfig)
        ensures
            copy@ == self@,
    {
        ModelConfig {
            base_url: self.base_url.clone(),
            api_key: self.api_key.clone(),
            model: self.model.clone(),
        }
    }
}

/// The enabled flag and the model configuration, read at one instant.
#[derive(Debug, PartialEq, Eq)]
pub struct IntelligenceSettings {
    pub enabled: bool,
    pub model: ModelConfig,
}

/// Who speaks in a message of a conversation.
#[derive(Clone, Copy, Debug, PartialEq, Eq, Structural)]
pub enum ChatRole {
    System,
    User,
    Assistant,
}

impl ChatRole {
    /// The role's name on the wire.
    pub open spec fn wire_name(self) -> Seq<char> {
        match self {
            ChatRole::System => "system"@,
            ChatRole::User => "user"@,
            ChatRole::Assistant => "assistant"@,
        }
    }

    /// The role's name on the wire.
    pub fn as_str(&self) -> (name: &'static str)
        ensures
            name@ == self.wire_name(),
    {
        match self {
            ChatRole::System => "system",
            ChatRole::User => "user",
            ChatRole::Assistant => "assistant",
        }
    }
}

/// One message of a conversation.
#[derive(Debug, PartialEq, Eq)]
pub struct ChatMessage {
    pub role: ChatRole,
    pub content: String,
}

pub struct ChatMessageView {
    pub role: ChatRole,
    pub content: Seq<char>,
}

impl View for ChatMessage {
    type V = ChatMessageView;

    open spec fn view(&self) -> ChatMessageView {
        ChatMessageView { role: self.role, content: self.content@ }
    }
}

/// The views of the messages of a conversation, in order.
pub open spec fn conversation(messages: Seq<ChatMessage>) -> Seq<ChatMessageView> {
    Seq::new(messages.len(), |i: int| messages[i]@)
}

/// The body of a completion request.
#[derive(Debug, PartialEq, Eq)]
pub struct ChatCompletionRequest {
    pub model: String,
    pub messages: Vec<ChatMessage>,
    pub stream: bool,
}

pub struct ChatCompletionRequestView {
    pub model: Seq<char>,
    pub messages: Seq<ChatMessageView>,
    pub stream: bool,
}

impl View for ChatCompletionRequest {
    type V = ChatCompletionRequestView;

    open spec fn view(&self) -> ChatCompletionRequestView {
        ChatCompletionRequestView {
            model: self.model@,
            messages: conversation(self.messages@),
            stream: self.stream,
        }
    }
}

/// The message of one choice of a completion.
#[derive(Debug, PartialEq, Eq)]
pub struct ChoiceMessage {
    pub content: String,
}

/// One choice of a completion.
#[derive(Debug, PartialEq, Eq)]
pub struct ChatChoice {
    pub message: ChoiceMessage,
}

/// A whole completion, as the service answers a request without streaming.
#[derive(Debug, PartialEq, Eq)]
pub struct ChatCompletionResponse {
    pub choices: Vec<ChatChoice>,
}

impl View for ChatCompletionResponse {
    /// The message text of each choice, in order.
    type V = Seq<Seq<char>>;

    open spec fn view(&self) -> Seq<Seq<char>> {
        Seq::new(self.choices@.len(), |i: int| self.choices@[i].message.content@)
    }
}

/// What one event of a streamed completion adds to a choice.
#[derive(Debug, PartialEq, Eq)]
pub struct ChunkDelta {
    pub content: Option<String>,
}

impl View for ChunkDelta {
    /// The text that the event adds, if it adds any.
    type V = Option<Seq<char>>;

    open spec fn view(&self) -> Option<Seq<char>> {
        match self.content {
            Some(text) => Some(text@),
            None => None,
        }
    }
}

/// One choice of an event of a streamed completion.
#[derive(Debug, PartialEq, Eq)]
pub struct ChunkChoice {
    pub delta: ChunkDelta,
}

/// One event of a streamed completion.
#[derive(Debug, PartialEq, Eq)]
pub struct ChatCompletionChunk {
    pub choices: Vec<ChunkChoice>,
}

impl View for ChatCompletionChunk {
    /// What the event adds to each choice, in order.
    type V = Seq<Option<Seq<char>>>;

    open spec fn view(&self) -> Seq<Option<Seq<char>>> {
        Seq::new(self.choices@.len(), |i: int| self.choices@[i].delta@)
    }
}

/// One model that the service offers.
#[derive(Debug, PartialEq, Eq)]
pub struct ChatModel {
    pub id: String,
}

/// The answer to a model discovery.
#[derive(Debug, PartialEq, Eq)]
pub struct ChatModelsResponse {
    pub data: Vec<ChatModel>,
}

impl View for ChatModelsResponse {
    /// The identifier of each model, in order.
    type V = Seq<Seq<char>>;

    open spec fn view(&self) -> Seq<Seq<char>> {
        Seq::new(self.data@.len(), |i: int| self.data@[i].id@)
    }
}

/// The views of the strings, in order.
pub open spec fn texts(strings: Seq<String>) -> Seq<Seq<char>> {
    Seq::new(strings.len(), |i: int| strings[i]@)
}

} // verus!
