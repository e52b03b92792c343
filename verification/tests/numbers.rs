use chat_assistant::decimal::{int_to_string, parse_i64};
use chat_assistant::tools::json::JsonValue;
use chat_assistant::tts::minimax::{audio_from_response, MiniMaxError};

#[test]
fn decimal_round_trip() {
    for x in [0i64, 7, 10, -1, 1234567890, i64::MAX, i64::MIN] {
        let s = int_to_string(x);
        assert_eq!(s, x.to_string());
        assert_eq!(parse_i64(&s), Some(x));
    }
    assert_eq!(parse_i64("-"), None);
    assert_eq!(parse_i64(""), None);
    assert_eq!(parse_i64("12a"), None);
    assert_eq!(parse_i64("+5"), None);
    assert_eq!(parse_i64("007"), Some(7));
    assert_eq!(parse_i64("-9223372036854775809"), None);
}

fn obj(members: Vec<(&str, JsonValue)>) -> JsonValue {
    JsonValue::Object(members.into_iter().map(|(k, v)| (k.to_string(), v)).collect())
}

fn body(code: &str, msg: Option<&str>, audio: Option<&str>) -> JsonValue {
    let mut base = vec![("status_code", JsonValue::Number(code.to_string()))];
    if let Some(m) = msg {
        base.push(("status_msg", JsonValue::String(m.to_string())));
    }
    let mut members = vec![("base_resp", obj(base))];
    if let Some(a) = audio {
        members.push(("data", obj(vec![("audio", JsonValue::String(a.to_string()))])));
    }
    obj(members)
}

#[test]
fn minimax_audio_decoding() {
    let ok = audio_from_response(&body("0", Some("success"), Some("49443304fF"))).unwrap();
    assert_eq!(ok, vec![0x49, 0x44, 0x33, 0x04, 0xff]);
    match audio_from_response(&body("1004", Some("auth failed"), Some("00"))) {
        Err(e) => assert_eq!(e.message(), "API error 1004: auth failed"),
        Ok(_) => panic!("expected an API error"),
    }
    match audio_from_response(&body("-3", None, None)) {
        Err(e) => assert_eq!(e.message(), "API error -3: Unknown error"),
        Ok(_) => panic!("expected an API error"),
    }
    assert!(matches!(audio_from_response(&body("0", None, None)), Err(MiniMaxError::NoAudio)));
    assert!(matches!(audio_from_response(&body("0", None, Some("abc"))), Err(MiniMaxError::BadHex)));
    assert!(matches!(audio_from_response(&body("0", None, Some("zz"))), Err(MiniMaxError::BadHex)));
    let no_base = obj(vec![("data", obj(vec![("audio", JsonValue::String(String::new()))]))]);
    assert_eq!(audio_from_response(&no_base).unwrap(), Vec::<u8>::new());
    assert_eq!(MiniMaxError::NoAudio.message(), "No audio data in response");
    assert_eq!(MiniMaxError::BadHex.message(), "Failed to decode audio hex");
}
