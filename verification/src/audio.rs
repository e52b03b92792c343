//! Buffering microphone samples into fixed-size chunks for the detectors.

use vstd::prelude::*;

verus! {

/// Takes the first `chunk_size` samples off the front of `buf`.
pub fn drain_chunk<T: Copy>(buf: &mut Vec<T>, chunk_size: usize) -> (chunk: Vec<T>)
    requires
        chunk_size <= old(buf)@.len(),
    ensures
        chunk@ == old(buf)@.take(chunk_size as int),
        final(buf)@ == old(buf)@.skip(chunk_size as int),
{
    let mut chunk: Vec<T> = Vec::new();
    let mut rest: Vec<T> = Vec::new();
    let mut i: usize = 0;
    while i < buf.len()
        invariant
            buf@ == old(buf)@,
            i <= buf@.len(),
            chunk_size <= buf@.len(),
            i <= chunk_size ==> chunk@ == buf@.take(i as int) && rest@.len() == 0,
            i > chunk_size ==> chunk@ == buf@.take(chunk_size as int) && rest@ == buf@.subrange(
                chunk_size as int,
                i as int,
            ),
        decreases buf@.len() - i,
    {
        if i < chunk_size {
            chunk.push(buf[i]);
            assert(buf@.take(i + 1) =~= buf@.take(i as int).push(buf@[i as int]));
        } else {
            rest.push(buf[i]);
            assert(buf@.subrange(chunk_size as int, i + 1) =~= buf@.subrange(
                chunk_size as int,
                i as int,
            ).push(buf@[i as int]));
        }
        i = i + 1;
    }
    if i <= chunk_size {
        assert(buf@.skip(chunk_size as int) =~= rest@);
    } else {
        assert(buf@.skip(chunk_size as int) =~= rest@);
    }
    *buf = rest;
    chunk
}

/// Appends the samples of `extra` to `buf`.
fn extend_with<T: Copy>(buf: &mut Vec<T>, extra: &Vec<T>)
    ensures
        final(buf)@ == old(buf)@ + extra@,
{
    let mut i: usize = 0;
    while i < extra.len()
        invariant
            i <= extra@.len(),
            buf@ == old(buf)@ + extra@.take(i as int),
        decreases extra@.len() - i,
    {
        buf.push(extra[i]);
        assert(extra@.take(i + 1) =~= extra@.take(i as int).push(extra@[i as int]));
        i = i + 1;
    }
    assert(extra@.take(extra@.len() as int) =~= extra@);
}

/// Puts back a chunk that arrived while a reply was being prepared: the
/// buffer becomes the chunk, then what it held, then the chunk again.
pub fn requeue_deferred<T: Copy>(buf: &mut Vec<T>, chunk: &Vec<T>)
    ensures
        final(buf)@ == chunk@ + old(buf)@ + chunk@,
{
    let mut combined: Vec<T> = Vec::new();
    extend_with(&mut combined, chunk);
    extend_with(&mut combined, buf);
    extend_with(&mut combined, chunk);
    assert(Seq::<T>::empty() + chunk@ =~= chunk@);
    *buf = combined;
}

/// Keeps the buffer from growing without bound: once it holds more than
/// two seconds of samples, the oldest second is dropped.
pub fn trim_backlog<T: Copy>(buf: &mut Vec<T>, samples_per_second: usize)
    requires
        samples_per_second * 2 <= usize::MAX,
    ensures
        old(buf)@.len() > samples_per_second * 2 ==> final(buf)@ == old(buf)@.skip(
            samples_per_second as int,
        ),
        old(buf)@.len() <= samples_per_second * 2 ==> final(buf)@ == old(buf)@,
{
    if buf.len() > samples_per_second * 2 {
        let _ = drain_chunk(buf, samples_per_second);
    }
}

} // verus!
