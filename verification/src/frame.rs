//! The frames of an event stream: where one ends, and what it carries.

use crate::text::{
    chars_of, delimiter_at, find_delimiter, first_delimiter, has_prefix, lemma_first_delimiter,
    lemma_first_delimiter_unique, range_equals, trim_bounds, trimmed,
};
use vstd::prelude::*;

verus! {

/// What a frame is to the reader of a stream.
#[derive(Debug, PartialEq, Eq)]
pub enum Frame {
    /// The frame does not begin with the data marker and is passed over.
    Ignored,
    /// The frame is the sentinel after which the producer sends no more.
    Terminator,
    /// The frame carries a payload: what follows the data marker, without
    /// the white space around it.
    Data(String),
}

pub enum FrameView {
    Ignored,
    Terminator,
    Data(Seq<char>),
}

impl View for Frame {
    type V = FrameView;

    open spec fn view(&self) -> FrameView {
        match self {
            Frame::Ignored => FrameView::Ignored,
            Frame::Terminator => FrameView::Terminator,
            Frame::Data(payload) => FrameView::Data(payload@),
        }
    }
}

/// A frame is what stands before the first blank line of the buffered text;
/// the two line feeds go with neither the frame nor the rest.
pub open spec fn split_frame(buffer: Seq<char>) -> Option<(Seq<char>, Seq<char>)> {
    match first_delimiter(buffer) {
        Some(i) => Some((buffer.take(i), buffer.skip(i + 2))),
        None => None,
    }
}

/// What a frame is: ignored without the marker `data: ` at its start, the
/// terminator where the trimmed rest is exactly `[DONE]`, else data.
pub open spec fn classified(frame: Seq<char>) -> FrameView {
    if "data: "@.is_prefix_of(frame) {
        let payload = trimmed(frame.skip("data: "@.len() as int));
        if payload == "[DONE]"@ {
            FrameView::Terminator
        } else {
            FrameView::Data(payload)
        }
    } else {
        FrameView::Ignored
    }
}

/// The blank line that ends a frame: two line feeds.
pub open spec fn blank_line() -> Seq<char> {
    seq!['\n', '\n']
}

/// Whether a text can stand as one frame of a stream: it holds no blank
/// line and does not end with a line feed, which would join the next one.
pub open spec fn is_frame_text(frame: Seq<char>) -> bool {
    first_delimiter(frame) is None && (frame.len() > 0 ==> frame.last() != '\n')
}

/// A frame text, a blank line, and any text: the first frame of the whole
/// is the frame text, and the rest is that text.
pub proof fn lemma_split_frame_joined(frame: Seq<char>, rest: Seq<char>)
    requires
        is_frame_text(frame),
    ensures
        split_frame(frame + blank_line() + rest) == Some((frame, rest)),
{
    let whole = frame + blank_line() + rest;
    let n = frame.len() as int;
    lemma_first_delimiter(frame);
    assert(whole[n] == '\n' && whole[n + 1] == '\n');
    assert(delimiter_at(whole, n));
    assert forall|j: int| 0 <= j < n implies !delimiter_at(whole, j) by {
        assert(!delimiter_at(frame, j));
        if j + 1 < n {
            assert(whole[j] == frame[j] && whole[j + 1] == frame[j + 1]);
        } else {
            assert(whole[j] == frame.last());
        }
    }
    lemma_first_delimiter_unique(whole, n);
    assert(whole.take(n) =~= frame);
    assert(whole.skip(n + 2) =~= rest);
}

/// Takes the first frame off the buffered text: `Some` exactly where the
/// text holds a blank line, and then the frame before the first one and
/// the text after it.
pub fn next_frame(buffer: &str) -> (parts: Option<(String, String)>)
    ensures
        match parts {
            Some((frame, rest)) => split_frame(buffer@) == Some((frame@, rest@)),
            None => split_frame(buffer@) is None,
        },
{
    let chars = chars_of(buffer);
    let len = chars.len();
    match find_delimiter(&chars) {
        Some(i) => {
            proof {
                lemma_first_delimiter(buffer@);
            }
            let frame = buffer.substring_char(0, i).to_owned();
            let rest = buffer.substring_char(i + 2, len).to_owned();
            Some((frame, rest))
        },
        None => None,
    }
}

/// Says what a frame is, and hands out the payload of a data frame.
pub fn classify_frame(frame: &str) -> (kind: Frame)
    ensures
        kind@ == classified(frame@),
{
    let chars = chars_of(frame);
    if !has_prefix(&chars, "data: ") {
        return Frame::Ignored;
    }
    let marker = "data: ".unicode_len();
    let (start, end) = trim_bounds(&chars, marker, chars.len());
    if range_equals(&chars, start, end, "[DONE]") {
        Frame::Terminator
    } else {
        Frame::Data(frame.substring_char(start, end).to_owned())
    }
}

} // verus!
