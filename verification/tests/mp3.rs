use chat_assistant::tts::mp3::{decode_frames, decode_mp3_pcm, join_frames};

/// `count` MPEG-1 Layer III frames of silence: 128 kbit/s, 44.1 kHz, joint
/// stereo, no padding, so 417 bytes each, all side information zero.
fn silent_frames(count: usize) -> Vec<u8> {
    let mut bytes = Vec::new();
    for _ in 0..count {
        bytes.extend_from_slice(&[0xFF, 0xFB, 0x90, 0x64]);
        bytes.extend(std::iter::repeat(0u8).take(417 - 4));
    }
    bytes
}

#[test]
fn empty_audio_gives_no_samples() {
    assert!(decode_mp3_pcm(&[]).is_empty());
}

#[test]
fn garbage_gives_no_frames() {
    let bytes = vec![0x55u8; 3000];
    assert!(decode_frames(&bytes).is_empty());
    assert!(decode_mp3_pcm(&bytes).is_empty());
}

#[test]
fn silent_frames_decode_to_zero_samples() {
    let bytes = silent_frames(12);
    let frames = decode_frames(&bytes);
    assert!(!frames.is_empty());
    for f in frames.iter() {
        assert_eq!(f.len(), 1152 * 2);
        assert!(f.iter().all(|&s| s == 0));
    }
    let pcm = decode_mp3_pcm(&bytes);
    assert_eq!(pcm, join_frames(&frames));
    assert_eq!(pcm.len(), frames.len() * 1152 * 2);
}

#[test]
fn join_frames_concatenates_in_order() {
    let frames = vec![vec![1i16, -2], vec![], vec![3i16], vec![i16::MAX, i16::MIN]];
    assert_eq!(join_frames(&frames), vec![1i16, -2, 3, i16::MAX, i16::MIN]);
    assert!(join_frames(&Vec::new()).is_empty());
}
