//! Reading the replies of the MiniMax speech synthesis service, which
//! sends the audio as hex-encoded MP3 inside a JSON body.

use vstd::prelude::*;
use crate::decimal::{int_text, int_to_string};
use crate::tools::json::{json_get, json_i64, json_str, JsonValue};

verus! {

/// The error type of `hex::decode`, carried through opaquely.
#[verifier::external_type_specification]
#[verifier::external_body]
pub struct ExFromHexError(hex::FromHexError);

/// The value of the ASCII hex digit `b`, when it is one.
pub open spec fn hex_digit_value(b: u8) -> Option<u8> {
    if 48 <= b <= 57 {
        Some((b - 48) as u8)
    } else if 65 <= b <= 70 {
        Some((b - 55) as u8)
    } else if 97 <= b <= 102 {
        Some((b - 87) as u8)
    } else {
        None
    }
}

/// `s` is hex text: an even number of hex digits.
pub open spec fn hex_valid(s: Seq<u8>) -> bool {
    &&& s.len() % 2 == 0
    &&& forall|i: int| 0 <= i < s.len() ==> (#[trigger] hex_digit_value(s[i])) is Some
}

/// The bytes that the hex text `s` spells, two digits per byte, high digit
/// first.
pub open spec fn hex_bytes(s: Seq<u8>) -> Seq<u8> {
    Seq::new(
        s.len() / 2,
        |i: int| (hex_digit_value(s[2 * i])->0 * 16 + hex_digit_value(s[2 * i + 1])->0) as u8,
    )
}

/// `hex::decode` on the UTF-8 bytes of `text`: it succeeds exactly when
/// they are an even number of hex digits (either case), and then gives
/// one byte per pair of digits, the first digit being the high one.
#[verifier::external_body]
fn hex_decode(text: &str) -> (r: Result<Vec<u8>, hex::FromHexError>)
    ensures
        r is Ok <==> hex_valid(vstd::utf8::encode_utf8(text@)),
        r matches Ok(v) ==> v@ == hex_bytes(vstd::utf8::encode_utf8(text@)),
{
    hex::decode(text)
}

/// Why a synthesis reply gave no audio.
#[derive(Debug)]
pub enum MiniMaxError {
    /// The service reported a status code other than 0.
    Api { code: i64, message: String },
    /// The reply held no audio text.
    NoAudio,
    /// The audio text was not hex.
    BadHex,
}

/// The text that describes a `MiniMaxError`.
pub open spec fn minimax_error_text(e: MiniMaxError) -> Seq<char> {
    match e {
        MiniMaxError::Api { code, message } => "API error "@ + int_text(code as int) + ": "@
            + message@,
        MiniMaxError::NoAudio => "No audio data in response"@,
        MiniMaxError::BadHex => "Failed to decode audio hex"@,
    }
}

impl MiniMaxError {
    /// The text that describes the failure.
    pub fn message(&self) -> (s: String)
        ensures
            s@ == minimax_error_text(*self),
    {
        match self {
            MiniMaxError::Api { code, message } => {
                let mut s = String::from_str("API error ");
                let c = int_to_string(*code);
                s.append(c.as_str());
                s.append(": ");
                s.append(message.as_str());
                s
            },
            MiniMaxError::NoAudio => String::from_str("No audio data in response"),
            MiniMaxError::BadHex => String::from_str("Failed to decode audio hex"),
        }
    }
}

/// The failure status that a reply body reports: its `base_resp` member's
/// integer `status_code` when that is not 0, with the `status_msg` text
/// (`Unknown error` when there is none).
pub open spec fn reported_failure(body: JsonValue) -> Option<(i64, Seq<char>)> {
    match json_get(body, "base_resp"@) {
        Some(base) => match json_i64(json_get(base, "status_code"@)) {
            Some(code) => if code != 0 {
                Some(
                    (
                        code,
                        match json_str(json_get(base, "status_msg"@)) {
                            Some(m) => m,
                            None => "Unknown error"@,
                        },
                    ),
                )
            } else {
                None
            },
            None => None,
        },
        None => None,
    }
}

/// The hex audio text of a reply body: its `data.audio` string.
pub open spec fn audio_text(body: JsonValue) -> Option<Seq<char>> {
    match json_get(body, "data"@) {
        Some(d) => json_str(json_get(d, "audio"@)),
        None => None,
    }
}

/// The MP3 bytes that a synthesis reply body carries: an error when it
/// reports a failure status, holds no `data.audio` text, or that text is
/// not hex.
pub fn audio_from_response(body: &JsonValue) -> (r: Result<Vec<u8>, MiniMaxError>)
    ensures
        reported_failure(*body) matches Some(f) ==> (r matches Err(MiniMaxError::Api { code, message })
            && code == f.0 && message@ == f.1),
        reported_failure(*body) is None && audio_text(*body) is None ==> r matches Err(
            MiniMaxError::NoAudio,
        ),
        reported_failure(*body) is None && audio_text(*body) is Some ==> hex_outcome(
            r,
            audio_text(*body)->0,
        ),
{
    if let Some(base) = body.get("base_resp") {
        let code = match base.get("status_code") {
            Some(c) => c.as_i64(),
            None => None,
        };
        if let Some(code) = code {
            if code != 0 {
                let message = match base.get("status_msg") {
                    Some(m) => match m.as_str() {
                        Some(s) => String::from_str(s),
                        None => String::from_str("Unknown error"),
                    },
                    None => String::from_str("Unknown error"),
                };
                return Err(MiniMaxError::Api { code, message });
            }
        }
    }
    let audio = match body.get("data") {
        Some(d) => match d.get("audio") {
            Some(a) => a.as_str(),
            None => None,
        },
        None => None,
    };
    match audio {
        Some(text) => match hex_decode(text) {
            Ok(bytes) => Ok(bytes),
            Err(_) => Err(MiniMaxError::BadHex),
        },
        None => Err(MiniMaxError::NoAudio),
    }
}

/// `r` is what decoding the hex text `t` gives: its bytes when `t` is hex,
/// else `BadHex`.
pub open spec fn hex_outcome(r: Result<Vec<u8>, MiniMaxError>, t: Seq<char>) -> bool {
    let bytes = vstd::utf8::encode_utf8(t);
    &&& hex_valid(bytes) ==> (r matches Ok(v) && v@ == hex_bytes(bytes))
    &&& !hex_valid(bytes) ==> r matches Err(MiniMaxError::BadHex)
}

} // verus!
