//! The reader of a streamed completion: it buffers the text of the chunks,
//! takes off the frames that are complete, and hands out the text fragments
//! that they carry, in the order of their arrival.

use crate::decode::{
    decode_chunk, decoded_chunk, decoded_chunk_choice, json_array_member, json_member,
};
use crate::frame::{
    blank_line, classified, classify_frame, is_frame_text, lemma_split_frame_joined, next_frame,
    split_frame, Frame, FrameView,
};
use crate::json::{json_model, json_of_text, parse_text, Json};
use crate::lossy::{text_from_bytes, text_of_bytes};
use crate::models::{texts, ChatCompletionChunk};
use crate::text::{all_whitespace, is_whitespace, lemma_first_delimiter, lemma_trimmed_padding};
use vstd::prelude::*;

verus! {

/// The text that an event forwards: what it adds to its first choice.
pub open spec fn first_content(choices: Seq<Option<Seq<char>>>) -> Option<Seq<char>> {
    if choices.len() > 0 {
        choices[0]
    } else {
        None
    }
}

/// The text that a JSON document forwards: none where it has not the
/// structure of an event.
pub open spec fn document_fragment(doc: Json) -> Option<Seq<char>> {
    match decoded_chunk(doc) {
        Some(choices) => first_content(choices),
        None => None,
    }
}

/// The text that a payload forwards: none where it is no JSON.
pub open spec fn payload_fragment(payload: Seq<char>) -> Option<Seq<char>> {
    match json_of_text(payload) {
        Some(doc) => document_fragment(doc),
        None => None,
    }
}

/// The text that a frame forwards: none unless it is a data frame.
pub open spec fn frame_fragment(frame: Seq<char>) -> Option<Seq<char>> {
    match classified(frame) {
        FrameView::Data(payload) => payload_fragment(payload),
        _ => None,
    }
}

/// A fragment, if there is one, as a sequence of none or one.
pub open spec fn forwarded(fragment: Option<Seq<char>>) -> Seq<Seq<char>> {
    match fragment {
        Some(text) => seq![text],
        None => Seq::empty(),
    }
}

/// What reading a buffer yields: the fragments forwarded, and the text that
/// stays buffered.
pub struct Drained {
    pub fragments: Seq<Seq<char>>,
    pub pending: Seq<char>,
}

/// Reads the complete frames off a buffer, first to last. The terminator
/// ends the reading: what follows it stays buffered, complete or not.
pub open spec fn drained(buffer: Seq<char>) -> Drained
    decreases buffer.len(),
{
    match split_frame(buffer) {
        Some((frame, rest)) => {
            proof {
                lemma_first_delimiter(buffer);
            }
            if classified(frame) is Terminator {
                Drained { fragments: Seq::empty(), pending: rest }
            } else {
                let after = drained(rest);
                Drained {
                    fragments: forwarded(frame_fragment(frame)) + after.fragments,
                    pending: after.pending,
                }
            }
        },
        None => Drained { fragments: Seq::empty(), pending: buffer },
    }
}

/// What reading does with the first frame of a stream: the terminator ends
/// the reading at once; any other frame forwards what it carries, and the
/// reading goes on with what follows it.
pub proof fn lemma_drained_frame(frame: Seq<char>, rest: Seq<char>)
    requires
        is_frame_text(frame),
    ensures
        drained(frame + blank_line() + rest) == if classified(frame) is Terminator {
            Drained { fragments: Seq::empty(), pending: rest }
        } else {
            Drained {
                fragments: forwarded(frame_fragment(frame)) + drained(rest).fragments,
                pending: drained(rest).pending,
            }
        },
{
    lemma_split_frame_joined(frame, rest);
}

/// The sentinel after the data marker is the terminator, with any white
/// space around it, and forwards nothing.
pub proof fn law_terminator_is_silent(before: Seq<char>, after: Seq<char>)
    requires
        all_whitespace(before),
        all_whitespace(after),
    ensures
        classified("data: "@ + before + "[DONE]"@ + after) is Terminator,
        frame_fragment("data: "@ + before + "[DONE]"@ + after) is None,
{
    let frame = "data: "@ + before + "[DONE]"@ + after;
    reveal_strlit("data: ");
    reveal_strlit("[DONE]");
    assert(!is_whitespace('[') && !is_whitespace(']'));
    assert("[DONE]"@.first() == '[' && "[DONE]"@.last() == ']');
    assert(frame.skip("data: "@.len() as int) =~= before + "[DONE]"@ + after);
    assert("data: "@ =~= frame.subrange(0, "data: "@.len() as int));
    lemma_trimmed_padding(before, "[DONE]"@, after);
}

/// The terminator ends the reading: nothing is forwarded, and what follows
/// it is left in the buffer.
pub proof fn law_terminator_ends_reading(frame: Seq<char>, rest: Seq<char>)
    requires
        is_frame_text(frame),
        classified(frame) is Terminator,
    ensures
        drained(frame + blank_line() + rest) == (Drained {
            fragments: Seq::empty(),
            pending: rest,
        }),
{
    lemma_drained_frame(frame, rest);
}

/// An event whose first choice has a delta without the member `content`
/// forwards nothing.
pub proof fn law_delta_without_content_is_silent(doc: Json)
    requires
        ({
            &&& json_array_member(doc, "choices"@) matches Some(choices)
            &&& choices.len() > 0
            &&& json_member(choices[0], "delta"@) matches Some(delta)
            &&& delta is Object
            &&& json_member(delta, "content"@) is None
        }),
    ensures
        document_fragment(doc) is None,
{
    let choices = json_array_member(doc, "choices"@).unwrap();
    let each = Seq::new(choices.len(), |i: int| decoded_chunk_choice(choices[i]));
    assert(each[0] == Some(None::<Seq<char>>));
}

/// A frame that forwards nothing and is no terminator is passed over: the
/// stream reads as what follows the frame reads.
pub proof fn law_silent_frame_is_skipped(frame: Seq<char>, rest: Seq<char>)
    requires
        is_frame_text(frame),
        !(classified(frame) is Terminator),
        frame_fragment(frame) is None,
    ensures
        drained(frame + blank_line() + rest) == drained(rest),
{
    lemma_drained_frame(frame, rest);
    assert(Seq::<Seq<char>>::empty() + drained(rest).fragments =~= drained(rest).fragments);
}

/// A data frame whose payload is no JSON is passed over, and the reading
/// does not end with it: the frames that follow are read and forwarded as
/// if it had not been there.
pub proof fn law_malformed_frame_is_skipped(frame: Seq<char>, rest: Seq<char>)
    requires
        is_frame_text(frame),
        classified(frame) matches FrameView::Data(payload) && json_of_text(payload) is None,
    ensures
        frame_fragment(frame) is None,
        drained(frame + blank_line() + rest) == drained(rest),
{
    law_silent_frame_is_skipped(frame, rest);
}

/// The text that an event forwards.
pub fn first_fragment(chunk: &ChatCompletionChunk) -> (fragment: Option<String>)
    ensures
        match fragment {
            Some(text) => first_content(chunk@) == Some(text@),
            None => first_content(chunk@) is None,
        },
{
    if chunk.choices.len() > 0 {
        match &chunk.choices[0].delta.content {
            Some(text) => Some(text.clone()),
            None => None,
        }
    } else {
        None
    }
}

/// The text that a parsed JSON document forwards.
pub fn fragment_of_document(doc: &serde_json::Value) -> (fragment: Option<String>)
    ensures
        match fragment {
            Some(text) => document_fragment(json_model(*doc)) == Some(text@),
            None => document_fragment(json_model(*doc)) is None,
        },
{
    match decode_chunk(doc) {
        Some(chunk) => first_fragment(&chunk),
        None => None,
    }
}

/// The text that the payload of a data frame forwards. A payload that is
/// no JSON forwards none, and so does one without the structure of an
/// event.
pub fn fragment_of_payload(payload: &str) -> (fragment: Option<String>)
    ensures
        match fragment {
            Some(text) => payload_fragment(payload@) == Some(text@),
            None => payload_fragment(payload@) is None,
        },
{
    match parse_text(payload) {
        Ok(doc) => fragment_of_document(&doc),
        Err(_) => None,
    }
}

/// What the transport reports when it is asked for the next chunk.
#[derive(Debug, PartialEq, Eq)]
pub enum StreamEvent {
    /// A chunk of the body, cut wherever the network cut it.
    Chunk(Vec<u8>),
    /// The body has ended.
    Ended,
    /// The read failed.
    ReadFailed,
}

/// What the application does after an event.
#[derive(Debug, PartialEq, Eq)]
pub enum StreamStep {
    /// It hands these fragments to the consumer, in order, and reads on.
    Forward(Vec<String>),
    /// It stops reading, and the call returns with success.
    Done,
}

/// The state of one streamed call: the text received and not yet consumed.
pub struct EventStreamParser {
    buffer: String,
}

impl View for EventStreamParser {
    /// The buffered text.
    type V = Seq<char>;

    closed spec fn view(&self) -> Seq<char> {
        self.buffer@
    }
}

impl EventStreamParser {
    /// A reader with nothing buffered.
    pub fn new() -> (parser: EventStreamParser)
        ensures
            parser@ == Seq::<char>::empty(),
    {
        EventStreamParser { buffer: String::new() }
    }

    /// The buffered text.
    pub fn pending(&self) -> (text: &str)
        ensures
            text@ == self@,
    {
        self.buffer.as_str()
    }

    /// Takes in the text of one chunk and returns the fragments to forward,
    /// in order: those of the frames that the text completes.
    pub fn feed_text(&mut self, text: &str) -> (fragments: Vec<String>)
        ensures
            drained(old(self)@ + text@) == (Drained {
                fragments: texts(fragments@),
                pending: final(self)@,
            }),
    {
        self.buffer.append(text);
        let ghost whole = self.buffer@;
        let mut fragments: Vec<String> = Vec::new();
        proof {
            assert(texts(fragments@) + drained(whole).fragments =~= drained(whole).fragments);
        }
        loop
            invariant_except_break
                drained(whole).fragments == texts(fragments@) + drained(self.buffer@).fragments,
                drained(whole).pending == drained(self.buffer@).pending,
            ensures
                drained(whole) == (Drained { fragments: texts(fragments@), pending: self.buffer@ }),
            decreases self.buffer@.len(),
        {
            let ghost before = self.buffer@;
            let ghost sent = texts(fragments@);
            proof {
                lemma_first_delimiter(before);
            }
            match next_frame(self.buffer.as_str()) {
                None => {
                    proof {
                        assert(sent + drained(before).fragments =~= sent);
                    }
                    break ;
                },
                Some((frame, rest)) => {
                    self.buffer = rest;
                    match classify_frame(frame.as_str()) {
                        Frame::Terminator => {
                            proof {
                                assert(sent + drained(before).fragments =~= sent);
                            }
                            break ;
                        },
                        Frame::Data(payload) => {
                            match fragment_of_payload(payload.as_str()) {
                                Some(fragment) => {
                                    fragments.push(fragment);
                                    proof {
                                        assert(texts(fragments@) =~= sent + seq![fragment@]);
                                        assert(sent + (seq![fragment@] + drained(
                                            self.buffer@,
                                        ).fragments) =~= texts(fragments@) + drained(
                                            self.buffer@,
                                        ).fragments);
                                    }
                                },
                                None => {
                                    proof {
                                        assert(Seq::<Seq<char>>::empty() + drained(
                                            self.buffer@,
                                        ).fragments =~= drained(self.buffer@).fragments);
                                    }
                                },
                            }
                        },
                        Frame::Ignored => {
                            proof {
                                assert(Seq::<Seq<char>>::empty() + drained(
                                    self.buffer@,
                                ).fragments =~= drained(self.buffer@).fragments);
                            }
                        },
                    }
                },
            }
        }
        fragments
    }

    /// Takes in one chunk as it came off the wire: its bytes are read as
    /// text, with a replacement for what is no UTF-8, and the text is fed.
    pub fn feed(&mut self, chunk: &[u8]) -> (fragments: Vec<String>)
        ensures
            drained(old(self)@ + text_of_bytes(chunk@)) == (Drained {
                fragments: texts(fragments@),
                pending: final(self)@,
            }),
    {
        let text = text_from_bytes(chunk);
        self.feed_text(text.as_str())
    }

    /// Decides the next step of a streamed call. A chunk is fed, and its
    /// fragments are to be forwarded. The end of the body ends the call, and
    /// so does a failed read: what was forwarded stands, and no failure is
    /// raised after the fact.
    pub fn on_event(&mut self, event: &StreamEvent) -> (step: StreamStep)
        ensures
            match *event {
                StreamEvent::Chunk(bytes) => step matches StreamStep::Forward(fragments)
                    && drained(old(self)@ + text_of_bytes(bytes@)) == (Drained {
                    fragments: texts(fragments@),
                    pending: final(self)@,
                }),
                _ => step is Done && final(self)@ == old(self)@,
            },
    {
        match event {
            StreamEvent::Chunk(bytes) => StreamStep::Forward(self.feed(bytes.as_slice())),
            _ => StreamStep::Done,
        }
    }
}

} // verus!
