//! Choices made when synthesizing speech.

use vstd::prelude::*;

verus! {

/// The speaker to synthesize with: the configured one when the model has
/// that many speakers, else speaker 0.
pub fn speaker_for(speaker_id: usize, num_speakers: i32) -> (sid: i32)
    ensures
        speaker_id < num_speakers as usize ==> sid == speaker_id as i32,
        !(speaker_id < num_speakers as usize) ==> sid == 0,
{
    if speaker_id < num_speakers as usize {
        speaker_id as i32
    } else {
        0
    }
}

} // verus!
