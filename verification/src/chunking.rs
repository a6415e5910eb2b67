//! A stream read chunk by chunk, and why the places where it is cut into
//! chunks do not matter.

use crate::frame::{classified, split_frame};
use crate::lossy::text_of_bytes;
use crate::models::texts;
use crate::stream::{drained, Drained, EventStreamParser};
use crate::text::{
    delimiter_at, first_delimiter, lemma_first_delimiter, lemma_first_delimiter_append,
};
use vstd::prelude::*;
use vstd::utf8::{
    decode_first_scalar, decode_utf8, pop_first_scalar, valid_utf8, valid_utf8_concat,
};

verus! {

/// The chunks one after the other, as one text.
pub open spec fn joined(chunks: Seq<Seq<char>>) -> Seq<char>
    decreases chunks.len(),
{
    if chunks.len() == 0 {
        Seq::empty()
    } else {
        chunks[0] + joined(chunks.drop_first())
    }
}

/// Reads a stream that arrives in chunks: each chunk is added to what the
/// chunks before it left buffered, and the complete frames are read off.
pub open spec fn drained_in_chunks(buffer: Seq<char>, chunks: Seq<Seq<char>>) -> Drained
    decreases chunks.len(),
{
    if chunks.len() == 0 {
        Drained { fragments: Seq::empty(), pending: buffer }
    } else {
        let first = drained(buffer + chunks[0]);
        let after = drained_in_chunks(first.pending, chunks.drop_first());
        Drained { fragments: first.fragments + after.fragments, pending: after.pending }
    }
}

/// Whether the terminator, where the stream holds one, is its last complete
/// frame.
pub open spec fn ends_at_terminator(stream: Seq<char>) -> bool
    decreases stream.len(),
{
    match split_frame(stream) {
        Some((frame, rest)) => {
            proof {
                lemma_first_delimiter(stream);
            }
            if classified(frame) is Terminator {
                split_frame(rest) is None
            } else {
                ends_at_terminator(rest)
            }
        },
        None => true,
    }
}

/// The bytes of each chunk.
pub open spec fn chunk_bytes(chunks: Seq<Vec<u8>>) -> Seq<Seq<u8>> {
    Seq::new(chunks.len(), |i: int| chunks[i]@)
}

/// The text of each chunk of bytes.
pub open spec fn chunk_texts(chunks: Seq<Seq<u8>>) -> Seq<Seq<char>> {
    Seq::new(chunks.len(), |i: int| text_of_bytes(chunks[i]))
}

/// The chunks of bytes one after the other.
pub open spec fn joined_bytes(chunks: Seq<Seq<u8>>) -> Seq<u8>
    decreases chunks.len(),
{
    if chunks.len() == 0 {
        Seq::empty()
    } else {
        chunks[0] + joined_bytes(chunks.drop_first())
    }
}

/// Whether each chunk is UTF-8 all through: no chunk begins or ends inside
/// the encoding of a character.
pub open spec fn cut_between_characters(chunks: Seq<Seq<u8>>) -> bool {
    forall|i: int| 0 <= i < chunks.len() ==> valid_utf8(#[trigger] chunks[i])
}

/// Reading a text and then one appended to it comes to reading both at
/// once, where the terminator is the last complete frame of the whole.
proof fn lemma_drained_append(a: Seq<char>, b: Seq<char>)
    requires
        ends_at_terminator(a + b),
    ensures
        drained(a + b) == (Drained {
            fragments: drained(a).fragments + drained(drained(a).pending + b).fragments,
            pending: drained(drained(a).pending + b).pending,
        }),
        first_delimiter(drained(a).pending) is None,
        ends_at_terminator(drained(a).pending + b),
    decreases a.len(),
{
    lemma_first_delimiter(a);
    match first_delimiter(a) {
        None => {
            assert(drained(a).fragments + drained(a + b).fragments =~= drained(a + b).fragments);
        },
        Some(i) => {
            lemma_first_delimiter_append(a, b);
            let frame = a.take(i);
            let rest = a.skip(i + 2);
            assert((a + b).take(i) =~= frame);
            assert((a + b).skip(i + 2) =~= rest + b);
            if classified(frame) is Terminator {
                lemma_first_delimiter(rest + b);
                lemma_first_delimiter(rest);
                if first_delimiter(rest) is Some {
                    assert(delimiter_at(rest + b, first_delimiter(rest).unwrap()));
                }
                assert(drained(rest + b) == Drained {
                    fragments: Seq::empty(),
                    pending: rest + b,
                });
                assert(drained(a).fragments + drained(rest + b).fragments =~= Seq::<
                    Seq<char>,
                >::empty());
            } else {
                lemma_drained_append(rest, b);
                assert(drained(a + b).fragments =~= drained(a).fragments + drained(
                    drained(a).pending + b,
                ).fragments);
            }
        },
    }
}

/// Read from a buffer without a complete frame, a stream in chunks yields
/// what the buffer and the chunks yield as one text.
proof fn lemma_chunks_as_one(buffer: Seq<char>, chunks: Seq<Seq<char>>)
    requires
        first_delimiter(buffer) is None,
        ends_at_terminator(buffer + joined(chunks)),
    ensures
        drained_in_chunks(buffer, chunks) == drained(buffer + joined(chunks)),
    decreases chunks.len(),
{
    if chunks.len() == 0 {
        assert(buffer + joined(chunks) =~= buffer);
    } else {
        let a = buffer + chunks[0];
        let b = joined(chunks.drop_first());
        assert(a + b =~= buffer + joined(chunks));
        lemma_drained_append(a, b);
        lemma_chunks_as_one(drained(a).pending, chunks.drop_first());
    }
}

/// However a stream is cut into chunks, reading it chunk by chunk forwards
/// what reading it in one piece forwards, and leaves the same text
/// buffered. This holds of a stream whose terminator, where it has one, is
/// its last complete frame.
pub proof fn law_chunking_is_immaterial(chunks: Seq<Seq<char>>)
    requires
        ends_at_terminator(joined(chunks)),
    ensures
        drained_in_chunks(Seq::empty(), chunks) == drained(joined(chunks)),
{
    let nothing = Seq::<char>::empty();
    assert(nothing + joined(chunks) =~= joined(chunks));
    lemma_first_delimiter(nothing);
    lemma_chunks_as_one(nothing, chunks);
}

/// Two ways of cutting one stream into chunks forward the same fragments
/// in the same order, and leave the same text buffered.
pub proof fn law_cuts_agree(one: Seq<Seq<char>>, other: Seq<Seq<char>>)
    requires
        joined(one) == joined(other),
        ends_at_terminator(joined(one)),
    ensures
        drained_in_chunks(Seq::empty(), one) == drained_in_chunks(Seq::empty(), other),
{
    law_chunking_is_immaterial(one);
    law_chunking_is_immaterial(other);
}

/// Two UTF-8 texts one after the other encode the two texts one after the
/// other.
proof fn lemma_decode_concat(b1: Seq<u8>, b2: Seq<u8>)
    requires
        valid_utf8(b1),
        valid_utf8(b2),
    ensures
        valid_utf8(b1 + b2),
        decode_utf8(b1 + b2) == decode_utf8(b1) + decode_utf8(b2),
    decreases b1.len(),
{
    valid_utf8_concat(b1, b2);
    if b1.len() == 0 {
        assert(b1 + b2 =~= b2);
        assert(decode_utf8(b1) + decode_utf8(b2) =~= decode_utf8(b2));
    } else {
        let rest = pop_first_scalar(b1);
        assert(rest.len() < b1.len());
        lemma_decode_concat(rest, b2);
        assert(pop_first_scalar(b1 + b2) =~= rest + b2);
        assert(decode_first_scalar(b1 + b2) == decode_first_scalar(b1));
        assert(decode_utf8(b1 + b2) =~= decode_utf8(b1) + decode_utf8(b2));
    }
}

/// Chunks that are cut between characters encode, one after the other, the
/// text that their bytes encode as a whole.
proof fn lemma_joined_texts(chunks: Seq<Seq<u8>>)
    requires
        cut_between_characters(chunks),
    ensures
        valid_utf8(joined_bytes(chunks)),
        joined(chunk_texts(chunks)) == decode_utf8(joined_bytes(chunks)),
    decreases chunks.len(),
{
    if chunks.len() == 0 {
        assert(decode_utf8(joined_bytes(chunks)) =~= Seq::<char>::empty());
    } else {
        let rest = chunks.drop_first();
        assert(valid_utf8(chunks[0]));
        assert forall|i: int| 0 <= i < rest.len() implies valid_utf8(#[trigger] rest[i]) by {
            assert(rest[i] == chunks[i + 1]);
        }
        lemma_joined_texts(rest);
        lemma_decode_concat(chunks[0], joined_bytes(rest));
        assert(chunk_texts(chunks).drop_first() =~= chunk_texts(rest));
    }
}

/// However the bytes of a stream are cut into chunks between characters,
/// reading them chunk by chunk forwards what reading the text of the whole
/// forwards. This holds of a stream whose terminator, where it has one, is
/// its last complete frame.
pub proof fn law_byte_chunking_is_immaterial(chunks: Seq<Seq<u8>>)
    requires
        cut_between_characters(chunks),
        ends_at_terminator(decode_utf8(joined_bytes(chunks))),
    ensures
        drained_in_chunks(Seq::empty(), chunk_texts(chunks)) == drained(
            decode_utf8(joined_bytes(chunks)),
        ),
{
    lemma_joined_texts(chunks);
    law_chunking_is_immaterial(chunk_texts(chunks));
}

/// Two ways of cutting the bytes of one stream into chunks between
/// characters forward the same fragments in the same order.
pub proof fn law_byte_cuts_agree(one: Seq<Seq<u8>>, other: Seq<Seq<u8>>)
    requires
        joined_bytes(one) == joined_bytes(other),
        cut_between_characters(one),
        cut_between_characters(other),
        ends_at_terminator(decode_utf8(joined_bytes(one))),
    ensures
        drained_in_chunks(Seq::empty(), chunk_texts(one)) == drained_in_chunks(
            Seq::empty(),
            chunk_texts(other),
        ),
{
    law_byte_chunking_is_immaterial(one);
    law_byte_chunking_is_immaterial(other);
}

/// Reads a whole stream from its chunks, first to last, with a reader of
/// its own, and returns every fragment forwarded, in order.
pub fn read_chunks(chunks: &Vec<Vec<u8>>) -> (fragments: Vec<String>)
    ensures
        texts(fragments@) == drained_in_chunks(
            Seq::empty(),
            chunk_texts(chunk_bytes(chunks@)),
        ).fragments,
{
    let mut parser = EventStreamParser::new();
    let mut fragments: Vec<String> = Vec::new();
    let ghost all = chunk_texts(chunk_bytes(chunks@));
    let mut i: usize = 0;
    proof {
        assert(all.skip(0) =~= all);
        assert(texts(fragments@) + drained_in_chunks(parser@, all).fragments
            =~= drained_in_chunks(parser@, all).fragments);
    }
    while i < chunks.len()
        invariant
            i <= chunks@.len(),
            all == chunk_texts(chunk_bytes(chunks@)),
            drained_in_chunks(Seq::empty(), all).fragments == texts(fragments@)
                + drained_in_chunks(parser@, all.skip(i as int)).fragments,
        decreases chunks@.len() - i,
    {
        let ghost sent = texts(fragments@);
        let mut more = parser.feed(chunks[i].as_slice());
        proof {
            let left = all.skip(i as int);
            assert(left[0] == text_of_bytes(chunks@[i as int]@));
            assert(left.drop_first() =~= all.skip(i + 1));
            let tail = drained_in_chunks(parser@, all.skip(i + 1)).fragments;
            assert(sent + (texts(more@) + tail) =~= (sent + texts(more@)) + tail);
        }
        let ghost added = texts(more@);
        fragments.append(&mut more);
        proof {
            assert(texts(fragments@) =~= sent + added);
        }
        i += 1;
    }
    proof {
        assert(all.skip(i as int) =~= Seq::<Seq<char>>::empty());
        assert(texts(fragments@) + Seq::<Seq<char>>::empty() =~= texts(fragments@));
    }
    fragments
}

} // verus!
