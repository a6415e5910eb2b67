use llm_gateway::client::{
    capability_gate, chat_request, completion_from_document, fetch_llm_chat_response,
    fetch_llm_chat_response_stream, first_choice, model_ids, models_from_document, models_request,
    open_stream, retrieve_llm_models, Delivery, HttpMethod, HttpReply, HttpRequest,
};
use llm_gateway::error::LLMServiceError;
use llm_gateway::models::{
    ChatChoice, ChatCompletionRequest, ChatCompletionResponse, ChatMessage, ChatModel,
    ChatModelsResponse, ChatRole, ChoiceMessage, IntelligenceSettings, ModelConfig,
};
use serde_json::Value;

fn settings(enabled: bool) -> IntelligenceSettings {
    IntelligenceSettings {
        enabled,
        model: ModelConfig {
            base_url: "https://api.example.com".to_string(),
            api_key: "SECRET-REDACTED".to_string(),
            model: "gpt-4o-mini".to_string(),
        },
    }
}

fn talk() -> Vec<ChatMessage> {
    vec![
        ChatMessage { role: ChatRole::System, content: "Be brief.".to_string() },
        ChatMessage { role: ChatRole::User, content: "Hello".to_string() },
    ]
}

fn body(text: &str) -> HttpReply {
    HttpReply::Body(text.as_bytes().to_vec())
}

fn strings(items: &[&str]) -> Vec<String> {
    items.iter().map(|item| item.to_string()).collect()
}

#[test]
fn the_gate_opens_where_the_feature_is_enabled() {
    assert_eq!(capability_gate(&settings(true)), Ok(settings(true).model));
}

#[test]
fn the_gate_is_shut_where_the_feature_is_disabled() {
    assert_eq!(capability_gate(&settings(false)), Err(LLMServiceError::NotEnabled));
}

#[test]
fn the_gate_hands_out_a_copy() {
    let mut live = settings(true);
    let taken = capability_gate(&live).unwrap();
    live.model.model = "other".to_string();
    assert_eq!(taken.model, "gpt-4o-mini");
}

#[test]
fn a_disabled_feature_yields_no_request() {
    assert_eq!(chat_request(&settings(false), talk(), false), Err(LLMServiceError::NotEnabled));
    assert_eq!(chat_request(&settings(false), talk(), true), Err(LLMServiceError::NotEnabled));
    assert_eq!(chat_request(&settings(false), Vec::new(), true), Err(LLMServiceError::NotEnabled));
}

#[test]
fn the_request_of_a_completion() {
    assert_eq!(
        chat_request(&settings(true), talk(), false),
        Ok(HttpRequest {
            method: HttpMethod::Post,
            url: "https://api.example.com/v1/chat/completions".to_string(),
            bearer_token: "SECRET-REDACTED".to_string(),
            body: Some(ChatCompletionRequest {
                model: "gpt-4o-mini".to_string(),
                messages: talk(),
                stream: false,
            }),
        })
    );
}

#[test]
fn the_request_of_a_streamed_completion_asks_for_a_stream() {
    let request = chat_request(&settings(true), talk(), true).unwrap();
    let body = request.body.unwrap();
    assert!(body.stream);
    assert_eq!(body.messages, talk());
    assert_eq!(request.url, "https://api.example.com/v1/chat/completions");
}

#[test]
fn the_request_of_a_model_discovery() {
    assert_eq!(
        models_request("http://localhost:11434", "k"),
        HttpRequest {
            method: HttpMethod::Get,
            url: "http://localhost:11434/v1/models".to_string(),
            bearer_token: "k".to_string(),
            body: None,
        }
    );
    assert_eq!(models_request("", "").url, "/v1/models");
    assert_eq!(models_request("http://h/", "").url, "http://h//v1/models");
}

#[test]
fn the_names_of_the_roles() {
    assert_eq!(ChatRole::System.as_str(), "system");
    assert_eq!(ChatRole::User.as_str(), "user");
    assert_eq!(ChatRole::Assistant.as_str(), "assistant");
}

#[test]
fn discovery_without_a_response_is_a_network_error() {
    assert_eq!(retrieve_llm_models(&HttpReply::Failed), Err(LLMServiceError::NetworkError));
}

#[test]
fn discovery_with_a_rejected_request_is_an_invalid_key() {
    assert_eq!(retrieve_llm_models(&HttpReply::Rejected), Err(LLMServiceError::InvalidAPIKey));
}

#[test]
fn discovery_with_a_body_that_does_not_decode_is_a_parse_error() {
    assert_eq!(retrieve_llm_models(&HttpReply::Unreadable), Err(LLMServiceError::ApiParseError));
    assert_eq!(retrieve_llm_models(&body("")), Err(LLMServiceError::ApiParseError));
    assert_eq!(retrieve_llm_models(&body("<html>")), Err(LLMServiceError::ApiParseError));
    assert_eq!(retrieve_llm_models(&body("{}")), Err(LLMServiceError::ApiParseError));
    assert_eq!(
        retrieve_llm_models(&body(r#"{"data":[{"id":"a"},{"id":7}]}"#)),
        Err(LLMServiceError::ApiParseError)
    );
    assert_eq!(
        retrieve_llm_models(&HttpReply::Body(vec![b'{', b'"', 0xFF, b'"', b':', b'1', b'}'])),
        Err(LLMServiceError::ApiParseError)
    );
}

#[test]
fn discovery_lists_the_identifiers_in_order() {
    assert_eq!(
        retrieve_llm_models(&body(
            r#"{"object":"list","data":[{"id":"m2","owned_by":"x"},{"id":"m1"},{"id":"m2"}]}"#
        )),
        Ok(strings(&["m2", "m1", "m2"]))
    );
    assert_eq!(retrieve_llm_models(&body(r#" {"data":[]} "#)), Ok(Vec::new()));
}

#[test]
fn completion_without_a_response_is_a_network_error() {
    assert_eq!(fetch_llm_chat_response(&HttpReply::Failed), Err(LLMServiceError::NetworkError));
}

#[test]
fn completion_with_a_rejected_request_is_a_network_error() {
    assert_eq!(fetch_llm_chat_response(&HttpReply::Rejected), Err(LLMServiceError::NetworkError));
}

#[test]
fn completion_with_a_body_that_does_not_decode_is_a_parse_error() {
    assert_eq!(fetch_llm_chat_response(&HttpReply::Unreadable), Err(LLMServiceError::ApiParseError));
    assert_eq!(fetch_llm_chat_response(&body("not json")), Err(LLMServiceError::ApiParseError));
    assert_eq!(fetch_llm_chat_response(&body("{}")), Err(LLMServiceError::ApiParseError));
    assert_eq!(
        fetch_llm_chat_response(&body(r#"{"choices":[{"message":{"content":null}}]}"#)),
        Err(LLMServiceError::ApiParseError)
    );
}

#[test]
fn completion_without_a_choice_is_no_response() {
    assert_eq!(
        fetch_llm_chat_response(&body(r#"{"choices":[]}"#)),
        Err(LLMServiceError::NoResponse)
    );
}

#[test]
fn completion_is_the_message_of_the_first_choice() {
    assert_eq!(
        fetch_llm_chat_response(&body(r#"{"choices":[{"message":{"content":"Hello"}}]}"#)),
        Ok("Hello".to_string())
    );
    assert_eq!(
        fetch_llm_chat_response(&body(
            r#"{"choices":[{"message":{"role":"assistant","content":"  one\n"}},{"message":{"content":"two"}}]}"#
        )),
        Ok("  one\n".to_string())
    );
    assert_eq!(
        fetch_llm_chat_response(&body(r#"{"choices":[{"message":{"content":""}}]}"#)),
        Ok(String::new())
    );
}

#[test]
fn documents_that_are_parsed_already() {
    let list = serde_json::from_str::<Value>(r#"{"data":[{"id":"a"},{"id":"b"}]}"#).unwrap();
    assert_eq!(models_from_document(&list), Ok(strings(&["a", "b"])));
    assert_eq!(completion_from_document(&list), Err(LLMServiceError::ApiParseError));
    let answer = serde_json::from_str::<Value>(r#"{"choices":[{"message":{"content":"x"}}]}"#)
        .unwrap();
    assert_eq!(completion_from_document(&answer), Ok("x".to_string()));
    assert_eq!(models_from_document(&answer), Err(LLMServiceError::ApiParseError));
    let none = serde_json::from_str::<Value>(r#"{"choices":[]}"#).unwrap();
    assert_eq!(completion_from_document(&none), Err(LLMServiceError::NoResponse));
}

#[test]
fn the_values_that_were_decoded() {
    let list = ChatModelsResponse {
        data: vec![ChatModel { id: "b".to_string() }, ChatModel { id: "a".to_string() }],
    };
    assert_eq!(model_ids(&list), strings(&["b", "a"]));
    assert_eq!(model_ids(&ChatModelsResponse { data: Vec::new() }), Vec::<String>::new());
    let answer = ChatCompletionResponse {
        choices: vec![
            ChatChoice { message: ChoiceMessage { content: "first".to_string() } },
            ChatChoice { message: ChoiceMessage { content: "second".to_string() } },
        ],
    };
    assert_eq!(first_choice(&answer), Ok("first".to_string()));
    assert_eq!(
        first_choice(&ChatCompletionResponse { choices: Vec::new() }),
        Err(LLMServiceError::NoResponse)
    );
}

#[test]
fn a_stream_that_does_not_open_is_a_network_error() {
    let chunks = vec![b"data: {\"choices\":[{\"delta\":{\"content\":\"x\"}}]}\n\n".to_vec()];
    assert_eq!(
        fetch_llm_chat_response_stream(Delivery::Failed, &chunks),
        Err(LLMServiceError::NetworkError)
    );
    assert_eq!(
        fetch_llm_chat_response_stream(Delivery::Rejected, &chunks),
        Err(LLMServiceError::NetworkError)
    );
    assert_eq!(open_stream(Delivery::Failed).err(), Some(LLMServiceError::NetworkError));
    assert_eq!(open_stream(Delivery::Rejected).err(), Some(LLMServiceError::NetworkError));
}

#[test]
fn an_accepted_stream_opens_with_nothing_buffered() {
    let parser = open_stream(Delivery::Accepted).unwrap();
    assert_eq!(parser.pending(), "");
}

#[test]
fn stream_in_two_chunks() {
    let chunks = vec![
        b"data: {\"choices\":[{\"delta\":{\"content\":\"Hel\"}}]}\n\n".to_vec(),
        b"data: {\"choices\":[{\"delta\":{\"content\":\"lo\"}}]}\n\ndata: [DONE]\n\n".to_vec(),
    ];
    assert_eq!(
        fetch_llm_chat_response_stream(Delivery::Accepted, &chunks),
        Ok(strings(&["Hel", "lo"]))
    );
}

#[test]
fn stream_in_one_chunk_with_a_silent_delta() {
    let chunks = vec![
        b"data: {\"choices\":[{\"delta\":{}}]}\n\ndata: {\"choices\":[{\"delta\":{\"content\":\"Hi\"}}]}\n\n"
            .to_vec(),
    ];
    assert_eq!(fetch_llm_chat_response_stream(Delivery::Accepted, &chunks), Ok(strings(&["Hi"])));
}

#[test]
fn a_stream_succeeds_without_a_terminator_and_without_a_chunk() {
    assert_eq!(fetch_llm_chat_response_stream(Delivery::Accepted, &Vec::new()), Ok(Vec::new()));
    let cut_short = vec![
        b"data: {\"choices\":[{\"delta\":{\"content\":\"a\"}}]}\n\ndata: {\"cho".to_vec(),
    ];
    assert_eq!(
        fetch_llm_chat_response_stream(Delivery::Accepted, &cut_short),
        Ok(strings(&["a"]))
    );
}
