//! The structure that the library expects of the service's JSON documents,
//! and the decoding of a parsed document into the library's values.

use crate::json::{elements, is_null, is_object, json_model, member, text, Json};
use crate::models::{
    ChatChoice, ChatCompletionChunk, ChatCompletionResponse, ChatModel, ChatModelsResponse,
    ChoiceMessage, ChunkChoice, ChunkDelta,
};
use vstd::prelude::*;

verus! {

/// The member of an object under a key. `None` for what is no object and
/// for an object without that member.
pub open spec fn json_member(doc: Json, key: Seq<char>) -> Option<Json> {
    match doc {
        Json::Object(members) => if members.contains_key(key) {
            Some(members[key])
        } else {
            None
        },
        _ => None,
    }
}

/// The member of an object under a key, where that member is a string.
pub open spec fn json_text_member(doc: Json, key: Seq<char>) -> Option<Seq<char>> {
    match json_member(doc, key) {
        Some(Json::Text(chars)) => Some(chars),
        _ => None,
    }
}

/// The array under a key of an object. `None` for what is no object, for an
/// object without that member, and for a member that is no array.
pub open spec fn json_array_member(doc: Json, key: Seq<char>) -> Option<Seq<Json>> {
    match json_member(doc, key) {
        Some(Json::Array(items)) => Some(items),
        _ => None,
    }
}

/// What a list decodes to, given what each of its elements decodes to: a
/// single element that does not decode fails the whole list.
pub open spec fn all_decoded<T>(each: Seq<Option<T>>) -> Option<Seq<T>> {
    if forall|i: int| 0 <= i < each.len() ==> (#[trigger] each[i]) is Some {
        Some(Seq::new(each.len(), |i: int| each[i].unwrap()))
    } else {
        None
    }
}

/// A delta is an object. Its member `content` is a string, or is null or
/// missing, which both stand for no text.
pub open spec fn decoded_delta(delta: Json) -> Option<Option<Seq<char>>> {
    if delta is Object {
        match json_member(delta, "content"@) {
            None => Some(None),
            Some(Json::Null) => Some(None),
            Some(Json::Text(chars)) => Some(Some(chars)),
            Some(_) => None,
        }
    } else {
        None
    }
}

/// A choice of a streamed event is an object with a delta under `delta`.
pub open spec fn decoded_chunk_choice(choice: Json) -> Option<Option<Seq<char>>> {
    match json_member(choice, "delta"@) {
        Some(delta) => decoded_delta(delta),
        None => None,
    }
}

/// A streamed event is an object with an array of choices under `choices`.
pub open spec fn decoded_chunk(doc: Json) -> Option<Seq<Option<Seq<char>>>> {
    match json_array_member(doc, "choices"@) {
        Some(items) => all_decoded(Seq::new(items.len(), |i: int| decoded_chunk_choice(items[i]))),
        None => None,
    }
}

/// A choice of a completion is an object with, under `message`, an object
/// that has a string under `content`.
pub open spec fn decoded_choice(choice: Json) -> Option<Seq<char>> {
    match json_member(choice, "message"@) {
        Some(message) => json_text_member(message, "content"@),
        None => None,
    }
}

/// A completion is an object with an array of choices under `choices`.
pub open spec fn decoded_response(doc: Json) -> Option<Seq<Seq<char>>> {
    match json_array_member(doc, "choices"@) {
        Some(items) => all_decoded(Seq::new(items.len(), |i: int| decoded_choice(items[i]))),
        None => None,
    }
}

/// A model is an object with a string under `id`.
pub open spec fn decoded_model(model: Json) -> Option<Seq<char>> {
    json_text_member(model, "id"@)
}

/// A model list is an object with an array of models under `data`.
pub open spec fn decoded_models(doc: Json) -> Option<Seq<Seq<char>>> {
    match json_array_member(doc, "data"@) {
        Some(items) => all_decoded(Seq::new(items.len(), |i: int| decoded_model(items[i]))),
        None => None,
    }
}

/// The member of an object under a key, where that member is a string.
fn text_member(doc: &serde_json::Value, key: &str) -> (found: Option<String>)
    ensures
        match found {
            Some(chars) => json_text_member(json_model(*doc), key@) == Some(chars@),
            None => json_text_member(json_model(*doc), key@) is None,
        },
{
    match member(doc, key) {
        Some(value) => match text(value) {
            Some(chars) => Some(chars.to_owned()),
            None => None,
        },
        None => None,
    }
}

/// The array under a key of an object.
fn list_member<'a>(doc: &'a serde_json::Value, key: &str) -> (found: Option<
    &'a Vec<serde_json::Value>,
>)
    ensures
        match found {
            Some(values) => json_array_member(json_model(*doc), key@) matches Some(items)
                && values@.len() == items.len() && forall|i: int|
                0 <= i < items.len() ==> json_model(#[trigger] values@[i]) == items[i],
            None => json_array_member(json_model(*doc), key@) is None,
        },
{
    match member(doc, key) {
        Some(value) => elements(value),
        None => None,
    }
}

/// Decodes the delta of a choice of a streamed event.
fn decode_delta(delta: &serde_json::Value) -> (decoded: Option<ChunkDelta>)
    ensures
        match decoded {
            Some(d) => decoded_delta(json_model(*delta)) == Some(d@),
            None => decoded_delta(json_model(*delta)) is None,
        },
{
    if !is_object(delta) {
        return None;
    }
    match member(delta, "content") {
        None => Some(ChunkDelta { content: None }),
        Some(value) => {
            if is_null(value) {
                Some(ChunkDelta { content: None })
            } else {
                match text(value) {
                    Some(chars) => Some(ChunkDelta { content: Some(chars.to_owned()) }),
                    None => None,
                }
            }
        },
    }
}

/// Decodes one choice of a streamed event.
fn decode_chunk_choice(choice: &serde_json::Value) -> (decoded: Option<ChunkChoice>)
    ensures
        match decoded {
            Some(c) => decoded_chunk_choice(json_model(*choice)) == Some(c.delta@),
            None => decoded_chunk_choice(json_model(*choice)) is None,
        },
{
    match member(choice, "delta") {
        Some(delta) => match decode_delta(delta) {
            Some(delta) => Some(ChunkChoice { delta }),
            None => None,
        },
        None => None,
    }
}

/// Decodes one event of a streamed completion: `Some` exactly where the
/// document has the structure of an event, and then with what the event
/// adds to each choice, in order.
pub fn decode_chunk(doc: &serde_json::Value) -> (decoded: Option<ChatCompletionChunk>)
    ensures
        match decoded {
            Some(chunk) => decoded_chunk(json_model(*doc)) == Some(chunk@),
            None => decoded_chunk(json_model(*doc)) is None,
        },
{
    let values = match list_member(doc, "choices") {
        Some(values) => values,
        None => {
            return None;
        },
    };
    let ghost items = json_array_member(json_model(*doc), "choices"@).unwrap();
    let mut choices: Vec<ChunkChoice> = Vec::new();
    let mut i: usize = 0;
    while i < values.len()
        invariant
            i <= values@.len(),
            values@.len() == items.len(),
            json_array_member(json_model(*doc), "choices"@) == Some(items),
            forall|k: int| 0 <= k < items.len() ==> json_model(#[trigger] values@[k]) == items[k],
            choices@.len() == i,
            forall|k: int| 0 <= k < i ==> decoded_chunk_choice(items[k]) == Some(#[trigger] choices@[k].delta@),
        decreases values@.len() - i,
    {
        match decode_chunk_choice(&values[i]) {
            Some(choice) => {
                choices.push(choice);
            },
            None => {
                assert(Seq::new(items.len(), |k: int| decoded_chunk_choice(items[k]))[i as int] is None);
                return None;
            },
        }
        i += 1;
    }
    let chunk = ChatCompletionChunk { choices };
    proof {
        let each = Seq::new(items.len(), |k: int| decoded_chunk_choice(items[k]));
        assert forall|k: int| 0 <= k < each.len() implies (#[trigger] each[k]) is Some by {
            assert(decoded_chunk_choice(items[k]) == Some(chunk.choices@[k].delta@));
        }
        assert(chunk@ =~= all_decoded(each).unwrap());
    }
    Some(chunk)
}

/// Decodes one choice of a completion.
fn decode_choice(choice: &serde_json::Value) -> (decoded: Option<ChatChoice>)
    ensures
        match decoded {
            Some(c) => decoded_choice(json_model(*choice)) == Some(c.message.content@),
            None => decoded_choice(json_model(*choice)) is None,
        },
{
    match member(choice, "message") {
        Some(message) => match text_member(message, "content") {
            Some(content) => Some(ChatChoice { message: ChoiceMessage { content } }),
            None => None,
        },
        None => None,
    }
}

/// Decodes a completion: `Some` exactly where the document has the
/// structure of a completion, and then with the message text of each choice,
/// in order.
pub fn decode_response(doc: &serde_json::Value) -> (decoded: Option<ChatCompletionResponse>)
    ensures
        match decoded {
            Some(response) => decoded_response(json_model(*doc)) == Some(response@),
            None => decoded_response(json_model(*doc)) is None,
        },
{
    let values = match list_member(doc, "choices") {
        Some(values) => values,
        None => {
            return None;
        },
    };
    let ghost items = json_array_member(json_model(*doc), "choices"@).unwrap();
    let mut choices: Vec<ChatChoice> = Vec::new();
    let mut i: usize = 0;
    while i < values.len()
        invariant
            i <= values@.len(),
            values@.len() == items.len(),
            json_array_member(json_model(*doc), "choices"@) == Some(items),
            forall|k: int| 0 <= k < items.len() ==> json_model(#[trigger] values@[k]) == items[k],
            choices@.len() == i,
            forall|k: int| 0 <= k < i ==> decoded_choice(items[k]) == Some(#[trigger] choices@[k].message.content@),
        decreases values@.len() - i,
    {
        match decode_choice(&values[i]) {
            Some(choice) => {
                choices.push(choice);
            },
            None => {
                assert(Seq::new(items.len(), |k: int| decoded_choice(items[k]))[i as int] is None);
                return None;
            },
        }
        i += 1;
    }
    let response = ChatCompletionResponse { choices };
    proof {
        let each = Seq::new(items.len(), |k: int| decoded_choice(items[k]));
        assert forall|k: int| 0 <= k < each.len() implies (#[trigger] each[k]) is Some by {
            assert(decoded_choice(items[k]) == Some(response.choices@[k].message.content@));
        }
        assert(response@ =~= all_decoded(each).unwrap());
    }
    Some(response)
}

/// Decodes a model list: `Some` exactly where the document has the
/// structure of a model list, and then with the identifier of each model, in
/// order.
pub fn decode_models(doc: &serde_json::Value) -> (decoded: Option<ChatModelsResponse>)
    ensures
        match decoded {
            Some(models) => decoded_models(json_model(*doc)) == Some(models@),
            None => decoded_models(json_model(*doc)) is None,
        },
{
    let values = match list_member(doc, "data") {
        Some(values) => values,
        None => {
            return None;
        },
    };
    let ghost items = json_array_member(json_model(*doc), "data"@).unwrap();
    let mut data: Vec<ChatModel> = Vec::new();
    let mut i: usize = 0;
    while i < values.len()
        invariant
            i <= values@.len(),
            values@.len() == items.len(),
            json_array_member(json_model(*doc), "data"@) == Some(items),
            forall|k: int| 0 <= k < items.len() ==> json_model(#[trigger] values@[k]) == items[k],
            data@.len() == i,
            forall|k: int| 0 <= k < i ==> decoded_model(items[k]) == Some(#[trigger] data@[k].id@),
        decreases values@.len() - i,
    {
        match text_member(&values[i], "id") {
            Some(id) => {
                data.push(ChatModel { id });
            },
            None => {
                assert(Seq::new(items.len(), |k: int| decoded_model(items[k]))[i as int] is None);
                return None;
            },
        }
        i += 1;
    }
    let models = ChatModelsResponse { data };
    proof {
        let each = Seq::new(items.len(), |k: int| decoded_model(items[k]));
        assert forall|k: int| 0 <= k < each.len() implies (#[trigger] each[k]) is Some by {
            assert(decoded_model(items[k]) == Some(models.data@[k].id@));
        }
        assert(models@ =~= all_decoded(each).unwrap());
    }
    Some(models)
}

} // verus!
