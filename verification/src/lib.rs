//! A client-side gateway to an OpenAI-compatible chat service.
//!
//! The crate holds the protocol logic of three calls (model discovery, a
//! single completion, a streamed completion) as verified functions on plain
//! values. The surrounding application performs the HTTP exchange and hands
//! the library what it received.
//!
//! - [`client`]: the requests to send, and what the three calls make of
//!   what came back.
//! - [`stream`]: the reader of a streamed completion, fed chunk by chunk.
//! - [`chunking`]: a whole stream read from its chunks, and the proof that
//!   the cuts between the chunks do not matter.
//! - [`frame`], [`text`]: the framing of the event stream.
//! - [`decode`]: the structure expected of the service's JSON documents.
//! - [`json`], [`lossy`]: the calls into `serde_json` and into the lossy
//!   UTF-8 decoder of std, whose contracts are stated and not proved.

pub mod chunking;
pub mod client;
pub mod decode;
pub mod error;
pub mod frame;
pub mod json;
pub mod lossy;
pub mod models;
pub mod stream;
pub mod text;

pub use client::{fetch_llm_chat_response, fetch_llm_chat_response_stream, retrieve_llm_models};
pub use error::LLMServiceError;
pub use stream::EventStreamParser;
