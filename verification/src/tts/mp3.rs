//! Turning the MP3 audio of a synthesis reply into 16-bit samples, frame
//! by frame, with the `minimp3` decoder.

use vstd::prelude::*;
use minimp3::Decoder;
use std::io::Cursor;

verus! {

/// The in-memory reader the decoder reads the audio from.
#[verifier::external_type_specification]
#[verifier::external_body]
#[verifier::reject_recursive_types(T)]
pub struct ExCursor<T>(Cursor<T>);

/// The `minimp3` decoder, carried through opaquely.
#[verifier::external_type_specification]
#[verifier::external_body]
#[verifier::reject_recursive_types(R)]
pub struct ExDecoder<R>(Decoder<R>);

/// The sample frames that `minimp3` decodes from the MP3 bytes `bytes`,
/// in order, up to the end of the bytes or the first decoding error
/// (each frame's samples with the channels interleaved).
pub uninterp spec fn mp3_frames(bytes: Seq<u8>) -> Seq<Seq<i16>>;

/// The frames that a decoder still has to give, up to the end of its
/// input or its first decoding error.
pub uninterp spec fn frames_left(decoder: Decoder<Cursor<Vec<u8>>>) -> Seq<Seq<i16>>;

/// `minimp3::Decoder::new` over a cursor on `bytes`: a fresh decoder still
/// has every frame of the bytes to give.
#[verifier::external_body]
fn mp3_decoder(bytes: Vec<u8>) -> (d: Decoder<Cursor<Vec<u8>>>)
    ensures
        frames_left(d) == mp3_frames(bytes@),
{
    Decoder::new(Cursor::new(bytes))
}

/// `minimp3::Decoder::next_frame`: while frames are left, it gives the
/// samples of the next one and moves past it; at the end of the input or
/// on a decoding error it gives none.
#[verifier::external_body]
fn next_frame(d: &mut Decoder<Cursor<Vec<u8>>>) -> (r: Option<Vec<i16>>)
    ensures
        frames_left(*old(d)).len() > 0 ==> (r matches Some(f) && f@ == frames_left(*old(d))[0]
            && frames_left(*final(d)) == frames_left(*old(d)).drop_first()),
        frames_left(*old(d)).len() == 0 ==> r is None,
{
    match d.next_frame() {
        Ok(frame) => Some(frame.data),
        Err(_) => None,
    }
}

/// The sample sequences of `frames`.
pub open spec fn frame_views(frames: Seq<Vec<i16>>) -> Seq<Seq<i16>> {
    frames.map_values(|f: Vec<i16>| f@)
}

/// The frames that `minimp3` decodes from `bytes`, in order, up to the end
/// of the bytes or the first decoding error.
pub fn decode_frames(bytes: &[u8]) -> (frames: Vec<Vec<i16>>)
    ensures
        frame_views(frames@) == mp3_frames(bytes@),
{
    let mut d = mp3_decoder(vstd::slice::slice_to_vec(bytes));
    let mut frames: Vec<Vec<i16>> = Vec::new();
    loop
        invariant
            frame_views(frames@) + frames_left(d) == mp3_frames(bytes@),
        decreases frames_left(d).len(),
    {
        let ghost before = frames_left(d);
        match next_frame(&mut d) {
            Some(f) => {
                let ghost seen = frame_views(frames@);
                frames.push(f);
                assert(frame_views(frames@) =~= seen.push(before[0]));
                assert(seen.push(before[0]) + before.drop_first() =~= seen + before);
            },
            None => {
                assert(frame_views(frames@) + before =~= frame_views(frames@));
                return frames;
            },
        }
    }
}

/// The samples of `frames` one after another.
pub fn join_frames(frames: &Vec<Vec<i16>>) -> (pcm: Vec<i16>)
    ensures
        pcm@ == frame_views(frames@).flatten(),
{
    let mut pcm: Vec<i16> = Vec::new();
    let mut i: usize = 0;
    assert(frame_views(frames@).skip(0) =~= frame_views(frames@));
    assert(pcm@ + frame_views(frames@).flatten() =~= frame_views(frames@).flatten());
    while i < frames.len()
        invariant
            i <= frames@.len(),
            pcm@ + frame_views(frames@).skip(i as int).flatten() == frame_views(frames@).flatten(),
        decreases frames@.len() - i,
    {
        let ghost rest = frame_views(frames@).skip(i as int);
        assert(rest[0] == frames@[i as int]@);
        assert(rest.drop_first() =~= frame_views(frames@).skip(i + 1));
        let f = &frames[i];
        let mut j: usize = 0;
        let ghost start = pcm@;
        while j < f.len()
            invariant
                j <= f@.len(),
                pcm@ == start + f@.take(j as int),
            decreases f@.len() - j,
        {
            pcm.push(f[j]);
            assert(f@.take(j + 1) =~= f@.take(j as int).push(f@[j as int]));
            j = j + 1;
        }
        assert(f@.take(j as int) =~= f@);
        assert(start + (rest[0] + rest.drop_first().flatten()) =~= start + rest[0]
            + rest.drop_first().flatten());
        i = i + 1;
    }
    assert(frame_views(frames@).skip(i as int) =~= Seq::<Seq<i16>>::empty());
    assert(pcm@ + Seq::<i16>::empty() =~= pcm@);
    pcm
}

/// The 16-bit samples of the MP3 audio `bytes`: the samples of its frames
/// one after another, up to the end of the bytes or the first decoding
/// error; none for empty input.
pub fn decode_mp3_pcm(bytes: &[u8]) -> (pcm: Vec<i16>)
    ensures
        bytes@.len() == 0 ==> pcm@ == Seq::<i16>::empty(),
        bytes@.len() > 0 ==> pcm@ == mp3_frames(bytes@).flatten(),
{
    if bytes.len() == 0 {
        return Vec::new();
    }
    let frames = decode_frames(bytes);
    join_frames(&frames)
}

} // verus!
