//! Speech output: accumulating streamed reply text into segments.

pub mod minimax;
pub mod mp3;
pub mod synthesizer;

use vstd::prelude::*;
use vstd::utf8::{encode_scalar, encode_utf8};
use crate::llm::response::{
    lemma_segments_marker_at, lemma_segments_without_marker, next_segment, segment_of_piece, segments_of,
    stop_marker,
};
use crate::text::{
    chars_of, contains, find, find_from_exec, lemma_contains_find, lemma_find_from_spec, string_of, trim, trim_range,
};

verus! {

/// What pushing `chunk` into a buffer holding `buf` does: the buffer's new
/// content, and the segment handed out. When the joined text holds a
/// marker, the text up to the first one is taken out of the buffer along
/// with the marker and handed out trimmed, blank or not.
pub open spec fn push_step(buf: Seq<char>, chunk: Seq<char>) -> (Seq<char>, Option<Seq<char>>) {
    let joined = buf + chunk;
    match find(joined, stop_marker()) {
        Some(pos) => (joined.skip(pos + stop_marker().len()), Some(trim(joined.take(pos)))),
        None => (joined, None),
    }
}

/// The segment worth speaking in what one push handed out: none when it
/// handed out nothing or a blank segment.
pub open spec fn spoken(out: Option<Seq<char>>) -> Seq<Seq<char>> {
    match out {
        Some(s) => if s.len() > 0 {
            seq![s]
        } else {
            Seq::empty()
        },
        None => Seq::empty(),
    }
}

/// Pushing `chunks` in turn into a buffer holding `buf`: what the buffer
/// holds afterwards, and the non-blank segments handed out, in order.
pub open spec fn stream(buf: Seq<char>, chunks: Seq<Seq<char>>) -> (Seq<char>, Seq<Seq<char>>)
    decreases chunks.len(),
{
    if chunks.len() == 0 {
        (buf, Seq::empty())
    } else {
        let step = push_step(buf, chunks[0]);
        let rest = stream(step.0, chunks.drop_first());
        (rest.0, spoken(step.1) + rest.1)
    }
}

/// Accumulates streamed text and hands out a segment once a `<stop/>`
/// marker has arrived.
pub struct TextBuffer {
    buffer: String,
    stop_marker: String,
}

impl View for TextBuffer {
    type V = Seq<char>;

    /// The text held, not yet handed out.
    closed spec fn view(&self) -> Seq<char> {
        self.buffer@
    }
}

impl TextBuffer {
    #[verifier::type_invariant]
    spec fn marker_is_stop(self) -> bool {
        self.stop_marker@ == stop_marker()
    }

    /// An empty buffer.
    pub fn new() -> (r: Self)
        ensures
            r@ == Seq::<char>::empty(),
    {
        let m = String::from_str("<stop/>");
        proof {
            reveal_strlit("<stop/>");
        }
        assert(m@ =~= stop_marker());
        TextBuffer { buffer: String::new(), stop_marker: m }
    }

    /// Appends `chunk`; when the text now holds a marker, removes the text
    /// up to and including the first marker and returns that text trimmed,
    /// even when it is blank.
    pub fn push(&mut self, chunk: &str) -> (r: Option<String>)
        ensures
            final(self)@ == push_step(old(self)@, chunk@).0,
            r matches Some(s) ==> push_step(old(self)@, chunk@).1 == Some(s@),
            r is None ==> push_step(old(self)@, chunk@).1 is None,
            forall|more: Seq<char>|
                #[trigger] segments_of(old(self)@ + chunk@ + more) == spoken(push_step(old(self)@, chunk@).1)
                    + segments_of(final(self)@ + more),
    {
        proof {
            use_type_invariant(&*self);
        }
        let mut joined = self.buffer.clone();
        joined.append(chunk);
        let s = chars_of(joined.as_str());
        let m = chars_of(self.stop_marker.as_str());
        let n = s.len();
        proof {
            lemma_find_from_spec(s@, m@, 0);
        }
        let r = match find_from_exec(&s, &m, 0) {
            Some(pos) => {
                let (a, b) = trim_range(&s, 0, pos);
                assert(s@.subrange(0, pos as int) =~= s@.take(pos as int));
                let rest = string_of(&s, pos + m.len(), n);
                assert(s@.subrange(pos + 7, s@.len() as int) =~= s@.skip(pos + 7));
                self.buffer = rest;
                Some(string_of(&s, a, b))
            },
            None => {
                self.buffer = joined;
                None
            },
        };
        proof {
            assert forall|more: Seq<char>|
                #[trigger] segments_of(old(self)@ + chunk@ + more) == spoken(push_step(old(self)@, chunk@).1)
                    + segments_of(self@ + more) by {
                lemma_push_step_keeps_segments(old(self)@, chunk@, more);
            }
        }
        r
    }

    /// Empties the buffer and returns what it held, trimmed, unless that is
    /// blank.
    pub fn extract_all(&mut self) -> (r: Option<String>)
        ensures
            final(self)@ == Seq::<char>::empty(),
            r matches Some(s) ==> s@ == trim(old(self)@) && s@.len() > 0,
            r is None ==> trim(old(self)@).len() == 0,
            !contains(old(self)@, stop_marker()) ==> segments_of(old(self)@) == match r {
                Some(s) => seq![s@],
                None => Seq::<Seq<char>>::empty(),
            },
    {
        proof {
            use_type_invariant(&*self);
            lemma_contains_find(self@, stop_marker());
            if !contains(self@, stop_marker()) {
                lemma_segments_without_marker(self@);
            }
        }
        let s = chars_of(self.buffer.as_str());
        if s.len() == 0 {
            assert(s@.subrange(0, 0) =~= s@);
            assert(trim(s@) =~= s@);
            return None;
        }
        let (a, b) = trim_range(&s, 0, s.len());
        assert(s@.subrange(0, s@.len() as int) =~= s@);
        self.buffer = String::new();
        if a < b {
            Some(string_of(&s, a, b))
        } else {
            None
        }
    }

    /// The length of the held text in UTF-8 bytes.
    pub fn len(&self) -> (n: usize)
        ensures
            n == encode_utf8(self@).len(),
            n == 0 <==> self@.len() == 0,
    {
        let bytes = self.buffer.as_str().as_bytes();
        proof {
            lemma_encode_utf8_empty(self@);
        }
        bytes.len()
    }

    /// Whether the buffer holds no text.
    pub fn is_empty(&self) -> (b: bool)
        ensures
            b == (self@.len() == 0),
    {
        self.buffer.as_str().is_empty()
    }
}

impl Default for TextBuffer {
    fn default() -> (r: Self)
        ensures
            r@ == Seq::<char>::empty(),
    {
        Self::new()
    }
}

/// Text encodes to no bytes exactly when it holds no characters.
proof fn lemma_encode_utf8_empty(s: Seq<char>)
    ensures
        encode_utf8(s).len() == 0 <==> s.len() == 0,
{
    if s.len() > 0 {
        assert(encode_utf8(s) == encode_scalar(s[0] as u32) + encode_utf8(s.drop_first()));
        assert(encode_scalar(s[0] as u32).len() > 0);
    }
}

/// Pushing a text into an empty buffer hands out the segment that
/// `ResponseSegmenter::extract_next` finds in it, and keeps the text after
/// the marker; where the text holds no marker, nothing is handed out.
pub proof fn law_push_matches_extract_next(text: Seq<char>)
    ensures
        next_segment(text) matches Some(p) ==> push_step(Seq::empty(), text) == (p.1, Some(p.0)),
        find(text, stop_marker()) is None ==> push_step(Seq::empty(), text) == (text, None::<Seq<char>>),
{
    assert(Seq::<char>::empty() + text =~= text);
}

/// Streaming keeps the segmentation: the non-blank segments handed out by
/// pushing `chunks` in turn, followed by the segments of what the buffer
/// still holds (and of any text `more` that comes after), are the segments
/// of the buffer's first content followed by all the chunks and `more`.
pub proof fn law_stream_keeps_segments(buf: Seq<char>, chunks: Seq<Seq<char>>, more: Seq<char>)
    ensures
        stream(buf, chunks).1 + segments_of(stream(buf, chunks).0 + more) == segments_of(
            buf + chunks.flatten() + more,
        ),
    decreases chunks.len(),
{
    if chunks.len() == 0 {
        assert(buf + chunks.flatten() =~= buf);
        assert(stream(buf, chunks).1 + segments_of(buf + more) =~= segments_of(buf + more));
    } else {
        let c = chunks[0];
        let tail = chunks.drop_first();
        let t = tail.flatten();
        let step = push_step(buf, c);
        let rest = stream(step.0, tail);
        law_stream_keeps_segments(step.0, tail, more);
        lemma_push_step_keeps_segments(buf, c, t + more);
        assert(buf + chunks.flatten() + more =~= buf + c + (t + more));
        assert(step.0 + t + more =~= step.0 + (t + more));
        assert(spoken(step.1) + rest.1 + segments_of(rest.0 + more) =~= spoken(step.1) + (rest.1
            + segments_of(rest.0 + more)));
    }
}

/// One push keeps the segmentation: the non-blank segment it hands out,
/// followed by the segments of what the buffer then holds and any text
/// `more` after it, are the segments of the old content, the chunk and
/// `more`.
pub proof fn lemma_push_step_keeps_segments(buf: Seq<char>, chunk: Seq<char>, more: Seq<char>)
    ensures
        spoken(push_step(buf, chunk).1) + segments_of(push_step(buf, chunk).0 + more) == segments_of(
            buf + chunk + more,
        ),
{
    let joined = buf + chunk;
    let step = push_step(buf, chunk);
    match find(joined, stop_marker()) {
        Some(pos) => {
            lemma_segments_marker_at(joined, more, pos);
            assert(spoken(step.1) == segment_of_piece(joined.take(pos)));
        },
        None => {
            assert(spoken(step.1) + segments_of(joined + more) =~= segments_of(joined + more));
        },
    }
}

/// Streaming then flushing gives the reply's segments: pushing `chunks` in
/// turn into an empty buffer and then flushing it hands out, over all,
/// exactly the segments of the whole reply, provided the buffer holds no
/// marker when it is flushed.
pub proof fn law_stream_then_flush(chunks: Seq<Seq<char>>)
    requires
        !contains(stream(Seq::empty(), chunks).0, stop_marker()),
    ensures
        stream(Seq::empty(), chunks).1 + segment_of_piece(stream(Seq::empty(), chunks).0) == segments_of(
            chunks.flatten(),
        ),
{
    let last = stream(Seq::empty(), chunks).0;
    law_stream_keeps_segments(Seq::empty(), chunks, Seq::empty());
    assert(Seq::<char>::empty() + chunks.flatten() + Seq::<char>::empty() =~= chunks.flatten());
    assert(last + Seq::<char>::empty() =~= last);
    lemma_contains_find(last, stop_marker());
    lemma_segments_without_marker(last);
    assert(stream(Seq::empty(), chunks).1 + segment_of_piece(last) + Seq::<Seq<char>>::empty()
        =~= stream(Seq::empty(), chunks).1 + segment_of_piece(last));
}

} // verus!
