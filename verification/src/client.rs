//! The three calls to the chat service, without the wire: what is sent, and
//! what is made of what came back.

use crate::chunking::{chunk_bytes, chunk_texts, drained_in_chunks, read_chunks};
use crate::decode::{
    all_decoded, decode_models, decode_response, decoded_choice, decoded_model, decoded_models,
    decoded_response, json_array_member,
};
use crate::error::LLMServiceError;
use crate::json::{json_model, json_of_bytes, parse_bytes, Json};
use crate::models::{
    conversation, texts, ChatCompletionRequest, ChatCompletionRequestView, ChatCompletionResponse,
    ChatMessage, ChatModelsResponse, IntelligenceSettings, ModelConfig, ModelConfigView,
};
use crate::stream::EventStreamParser;
use vstd::prelude::*;

verus! {

/// The method of a request.
#[derive(Clone, Copy, Debug, PartialEq, Eq, Structural)]
pub enum HttpMethod {
    Get,
    Post,
}

/// A request for the application to send: it goes to `url` with the header
/// `Authorization: Bearer`, a space and the token, and with the body, where
/// there is one, as JSON.
#[derive(Debug, PartialEq, Eq)]
pub struct HttpRequest {
    pub method: HttpMethod,
    pub url: String,
    pub bearer_token: String,
    pub body: Option<ChatCompletionRequest>,
}

pub struct HttpRequestView {
    pub method: HttpMethod,
    pub url: Seq<char>,
    pub bearer_token: Seq<char>,
    pub body: Option<ChatCompletionRequestView>,
}

impl View for HttpRequest {
    type V = HttpRequestView;

    open spec fn view(&self) -> HttpRequestView {
        HttpRequestView {
            method: self.method,
            url: self.url@,
            bearer_token: self.bearer_token@,
            body: match self.body {
                Some(body) => Some(body@),
                None => None,
            },
        }
    }
}

/// How the sending of a request ended.
#[derive(Clone, Copy, Debug, PartialEq, Eq, Structural)]
pub enum Delivery {
    /// No response came: the transport failed.
    Failed,
    /// A response came with a status that is no success.
    Rejected,
    /// A response came with a success status.
    Accepted,
}

/// What came back for a request that is answered in one piece.
#[derive(Debug, PartialEq, Eq)]
pub enum HttpReply {
    /// No response came: the transport failed.
    Failed,
    /// A response came with a status that is no success.
    Rejected,
    /// A response came with a success status, and its body could not be
    /// read to the end.
    Unreadable,
    /// A response came with a success status and this body.
    Body(Vec<u8>),
}

pub enum HttpReplyView {
    Failed,
    Rejected,
    Unreadable,
    Body(Seq<u8>),
}

impl View for HttpReply {
    type V = HttpReplyView;

    open spec fn view(&self) -> HttpReplyView {
        match self {
            HttpReply::Failed => HttpReplyView::Failed,
            HttpReply::Rejected => HttpReplyView::Rejected,
            HttpReply::Unreadable => HttpReplyView::Unreadable,
            HttpReply::Body(bytes) => HttpReplyView::Body(bytes@),
        }
    }
}

/// The request of a model discovery.
pub open spec fn models_request_view(base_url: Seq<char>, api_key: Seq<char>) -> HttpRequestView {
    HttpRequestView {
        method: HttpMethod::Get,
        url: base_url + "/v1/models"@,
        bearer_token: api_key,
        body: None,
    }
}

/// The request of a completion.
pub open spec fn chat_request_view(
    config: ModelConfigView,
    messages: Seq<ChatMessage>,
    stream: bool,
) -> HttpRequestView {
    HttpRequestView {
        method: HttpMethod::Post,
        url: config.base_url + "/v1/chat/completions"@,
        bearer_token: config.api_key,
        body: Some(
            ChatCompletionRequestView {
                model: config.model,
                messages: conversation(messages),
                stream,
            },
        ),
    }
}

/// What a model list document comes to.
pub open spec fn models_of_document(doc: Json) -> Result<Seq<Seq<char>>, LLMServiceError> {
    match decoded_models(doc) {
        Some(ids) => Ok(ids),
        None => Err(LLMServiceError::ApiParseError),
    }
}

/// What a model discovery comes to, given what came back.
pub open spec fn models_outcome(reply: HttpReplyView) -> Result<Seq<Seq<char>>, LLMServiceError> {
    match reply {
        HttpReplyView::Failed => Err(LLMServiceError::NetworkError),
        HttpReplyView::Rejected => Err(LLMServiceError::InvalidAPIKey),
        HttpReplyView::Unreadable => Err(LLMServiceError::ApiParseError),
        HttpReplyView::Body(bytes) => match json_of_bytes(bytes) {
            Some(doc) => models_of_document(doc),
            None => Err(LLMServiceError::ApiParseError),
        },
    }
}

/// What a completion document comes to.
pub open spec fn completion_of_document(doc: Json) -> Result<Seq<char>, LLMServiceError> {
    match decoded_response(doc) {
        Some(choices) => if choices.len() > 0 {
            Ok(choices[0])
        } else {
            Err(LLMServiceError::NoResponse)
        },
        None => Err(LLMServiceError::ApiParseError),
    }
}

/// What a completion without streaming comes to, given what came back.
pub open spec fn completion_outcome(reply: HttpReplyView) -> Result<Seq<char>, LLMServiceError> {
    match reply {
        HttpReplyView::Failed => Err(LLMServiceError::NetworkError),
        HttpReplyView::Rejected => Err(LLMServiceError::NetworkError),
        HttpReplyView::Unreadable => Err(LLMServiceError::ApiParseError),
        HttpReplyView::Body(bytes) => match json_of_bytes(bytes) {
            Some(doc) => completion_of_document(doc),
            None => Err(LLMServiceError::ApiParseError),
        },
    }
}

/// What a streamed completion comes to, given how the request ended and the
/// chunks that were read until the stream ended or failed.
pub open spec fn stream_outcome(delivery: Delivery, chunks: Seq<Vec<u8>>) -> Result<
    Seq<Seq<char>>,
    LLMServiceError,
> {
    match delivery {
        Delivery::Failed => Err(LLMServiceError::NetworkError),
        Delivery::Rejected => Err(LLMServiceError::NetworkError),
        Delivery::Accepted => Ok(
            drained_in_chunks(Seq::empty(), chunk_texts(chunk_bytes(chunks))).fragments,
        ),
    }
}

/// A model list whose every entry has a string under `id` comes to those
/// identifiers in the order of the list, with none left out and none
/// merged.
pub proof fn law_models_keep_their_order(doc: Json, entries: Seq<Json>)
    requires
        json_array_member(doc, "data"@) == Some(entries),
        forall|i: int| 0 <= i < entries.len() ==> (#[trigger] decoded_model(entries[i])) is Some,
    ensures
        models_of_document(doc) == Ok::<Seq<Seq<char>>, LLMServiceError>(
            Seq::new(entries.len(), |i: int| decoded_model(entries[i]).unwrap()),
        ),
{
    let each = Seq::new(entries.len(), |i: int| decoded_model(entries[i]));
    assert forall|i: int| 0 <= i < each.len() implies (#[trigger] each[i]) is Some by {
        assert(decoded_model(entries[i]) is Some);
    }
    assert(all_decoded(each).unwrap() =~= Seq::new(
        entries.len(),
        |i: int| decoded_model(entries[i]).unwrap(),
    ));
}

/// A completion without a choice comes to `NoResponse`, and one whose
/// choices all have a message text comes to the text of the first, as it
/// is.
pub proof fn law_completion_is_the_first_choice(doc: Json, choices: Seq<Json>)
    requires
        json_array_member(doc, "choices"@) == Some(choices),
        forall|i: int| 0 <= i < choices.len() ==> (#[trigger] decoded_choice(choices[i])) is Some,
    ensures
        completion_of_document(doc) == if choices.len() == 0 {
            Err::<Seq<char>, LLMServiceError>(LLMServiceError::NoResponse)
        } else {
            Ok::<Seq<char>, LLMServiceError>(decoded_choice(choices[0]).unwrap())
        },
{
    let each = Seq::new(choices.len(), |i: int| decoded_choice(choices[i]));
    assert forall|i: int| 0 <= i < each.len() implies (#[trigger] each[i]) is Some by {
        assert(decoded_choice(choices[i]) is Some);
    }
}

/// The capability gate: the model configuration where the feature is
/// enabled, and `NotEnabled` where it is not.
pub fn capability_gate(settings: &IntelligenceSettings) -> (gate: Result<
    ModelConfig,
    LLMServiceError,
>)
    ensures
        match gate {
            Ok(config) => settings.enabled && config@ == settings.model@,
            Err(e) => !settings.enabled && e == LLMServiceError::NotEnabled,
        },
{
    if settings.enabled {
        Ok(settings.model.snapshot())
    } else {
        Err(LLMServiceError::NotEnabled)
    }
}

/// The request of a model discovery: a GET to `/v1/models` below the base
/// URL.
pub fn models_request(base_url: &str, api_key: &str) -> (request: HttpRequest)
    ensures
        request@ == models_request_view(base_url@, api_key@),
{
    let mut url = base_url.to_owned();
    url.append("/v1/models");
    HttpRequest { method: HttpMethod::Get, url, bearer_token: api_key.to_owned(), body: None }
}

/// The request of a completion: a POST to `/v1/chat/completions` below the
/// base URL, with the configured model and the conversation as its body.
/// Where the feature is not enabled there is no request to send, and the
/// call ends with `NotEnabled`.
pub fn chat_request(settings: &IntelligenceSettings, messages: Vec<ChatMessage>, stream: bool) -> (request:
    Result<HttpRequest, LLMServiceError>)
    ensures
        match request {
            Ok(request) => settings.enabled && request@ == chat_request_view(
                settings.model@,
                messages@,
                stream,
            ),
            Err(e) => !settings.enabled && e == LLMServiceError::NotEnabled,
        },
{
    match capability_gate(settings) {
        Ok(config) => {
            let mut url = config.base_url;
            url.append("/v1/chat/completions");
            Ok(
                HttpRequest {
                    method: HttpMethod::Post,
                    url,
                    bearer_token: config.api_key,
                    body: Some(ChatCompletionRequest { model: config.model, messages, stream }),
                },
            )
        },
        Err(e) => Err(e),
    }
}

/// The identifiers of a decoded model list, in order.
pub fn model_ids(models: &ChatModelsResponse) -> (ids: Vec<String>)
    ensures
        texts(ids@) == models@,
{
    let mut ids: Vec<String> = Vec::new();
    let mut i: usize = 0;
    while i < models.data.len()
        invariant
            i <= models.data@.len(),
            ids@.len() == i,
            forall|k: int| 0 <= k < i ==> (#[trigger] ids@[k])@ == models.data@[k].id@,
        decreases models.data@.len() - i,
    {
        ids.push(models.data[i].id.clone());
        i += 1;
    }
    assert(texts(ids@) =~= models@);
    ids
}

/// The text of a decoded completion: the message of its first choice, as
/// it is, and `NoResponse` where it has no choice.
pub fn first_choice(response: &ChatCompletionResponse) -> (content: Result<
    String,
    LLMServiceError,
>)
    ensures
        match content {
            Ok(text) => response@.len() > 0 && text@ == response@[0],
            Err(e) => response@.len() == 0 && e == LLMServiceError::NoResponse,
        },
{
    if response.choices.len() > 0 {
        Ok(response.choices[0].message.content.clone())
    } else {
        Err(LLMServiceError::NoResponse)
    }
}

/// What a parsed body comes to in a model discovery: the identifiers in
/// the order of the document, none left out and none merged, or
/// `ApiParseError` where the document is no model list.
pub fn models_from_document(doc: &serde_json::Value) -> (outcome: Result<
    Vec<String>,
    LLMServiceError,
>)
    ensures
        match outcome {
            Ok(ids) => models_of_document(json_model(*doc)) == Ok::<
                Seq<Seq<char>>,
                LLMServiceError,
            >(texts(ids@)),
            Err(e) => models_of_document(json_model(*doc)) == Err::<
                Seq<Seq<char>>,
                LLMServiceError,
            >(e),
        },
{
    match decode_models(doc) {
        Some(models) => Ok(model_ids(&models)),
        None => Err(LLMServiceError::ApiParseError),
    }
}

/// What a parsed body comes to in a completion: the message of the first
/// choice, `NoResponse` where there is no choice, or `ApiParseError` where
/// the document is no completion.
pub fn completion_from_document(doc: &serde_json::Value) -> (outcome: Result<
    String,
    LLMServiceError,
>)
    ensures
        match outcome {
            Ok(text) => completion_of_document(json_model(*doc)) == Ok::<
                Seq<char>,
                LLMServiceError,
            >(text@),
            Err(e) => completion_of_document(json_model(*doc)) == Err::<
                Seq<char>,
                LLMServiceError,
            >(e),
        },
{
    match decode_response(doc) {
        Some(response) => first_choice(&response),
        None => Err(LLMServiceError::ApiParseError),
    }
}

/// Model discovery, from what came back for its request: the identifiers
/// of the models that the service lists, in its order.
pub fn retrieve_llm_models(reply: &HttpReply) -> (outcome: Result<Vec<String>, LLMServiceError>)
    ensures
        match outcome {
            Ok(ids) => models_outcome(reply@) == Ok::<Seq<Seq<char>>, LLMServiceError>(
                texts(ids@),
            ),
            Err(e) => models_outcome(reply@) == Err::<Seq<Seq<char>>, LLMServiceError>(e),
        },
{
    match reply {
        HttpReply::Failed => Err(LLMServiceError::NetworkError),
        HttpReply::Rejected => Err(LLMServiceError::InvalidAPIKey),
        HttpReply::Unreadable => Err(LLMServiceError::ApiParseError),
        HttpReply::Body(bytes) => match parse_bytes(bytes.as_slice()) {
            Ok(doc) => models_from_document(&doc),
            Err(_) => Err(LLMServiceError::ApiParseError),
        },
    }
}

/// A completion without streaming, from what came back for its request:
/// the message text of the first choice.
pub fn fetch_llm_chat_response(reply: &HttpReply) -> (outcome: Result<String, LLMServiceError>)
    ensures
        match outcome {
            Ok(text) => completion_outcome(reply@) == Ok::<Seq<char>, LLMServiceError>(text@),
            Err(e) => completion_outcome(reply@) == Err::<Seq<char>, LLMServiceError>(e),
        },
{
    match reply {
        HttpReply::Failed => Err(LLMServiceError::NetworkError),
        HttpReply::Rejected => Err(LLMServiceError::NetworkError),
        HttpReply::Unreadable => Err(LLMServiceError::ApiParseError),
        HttpReply::Body(bytes) => match parse_bytes(bytes.as_slice()) {
            Ok(doc) => completion_from_document(&doc),
            Err(_) => Err(LLMServiceError::ApiParseError),
        },
    }
}

/// Opens the reading of a streamed completion: a reader with nothing
/// buffered where the response was accepted, and else `NetworkError`.
pub fn open_stream(delivery: Delivery) -> (opened: Result<EventStreamParser, LLMServiceError>)
    ensures
        match opened {
            Ok(parser) => delivery == Delivery::Accepted && parser@ == Seq::<char>::empty(),
            Err(e) => delivery != Delivery::Accepted && e == LLMServiceError::NetworkError,
        },
{
    match delivery {
        Delivery::Accepted => Ok(EventStreamParser::new()),
        _ => Err(LLMServiceError::NetworkError),
    }
}

/// A streamed completion, from how its request ended and from the chunks
/// that were read until the stream ended or a read failed: every fragment
/// forwarded, in order. Once the response is accepted the call succeeds,
/// whatever the chunks hold.
pub fn fetch_llm_chat_response_stream(delivery: Delivery, chunks: &Vec<Vec<u8>>) -> (outcome:
    Result<Vec<String>, LLMServiceError>)
    ensures
        match outcome {
            Ok(fragments) => stream_outcome(delivery, chunks@) == Ok::<
                Seq<Seq<char>>,
                LLMServiceError,
            >(texts(fragments@)),
            Err(e) => stream_outcome(delivery, chunks@) == Err::<Seq<Seq<char>>, LLMServiceError>(
                e,
            ),
        },
{
    match delivery {
        Delivery::Failed => Err(LLMServiceError::NetworkError),
        Delivery::Rejected => Err(LLMServiceError::NetworkError),
        Delivery::Accepted => Ok(read_chunks(chunks)),
    }
}

} // verus!
