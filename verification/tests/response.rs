use chat_assistant::llm::ResponseSegmenter;
use chat_assistant::tts::TextBuffer;

#[test]
fn test_segment() {
    let seg = ResponseSegmenter::new();
    let text = "你好，今天天气不错。<stop/>适合出门散步。<stop/>";
    let segments = seg.segment(text);
    assert_eq!(segments.len(), 2);
    assert_eq!(segments[0], "你好，今天天气不错。");
    assert_eq!(segments[1], "适合出门散步。");
}

#[test]
fn test_extract_next() {
    let seg = ResponseSegmenter::new();
    let text = "你好<stop/>再见";
    let (segment, remaining) = seg.extract_next(text).unwrap();
    assert_eq!(segment, "你好");
    assert_eq!(remaining.trim(), "再见");
}

#[test]
fn segment_trims_and_drops_blank_pieces() {
    let seg = ResponseSegmenter::new();
    let segments = seg.segment("  a \n<stop/> \t <stop/><stop/>b\u{3000}<stop/>  c  ");
    assert_eq!(segments, vec!["a".to_string(), "b".to_string(), "c".to_string()]);
}

#[test]
fn segment_without_marker_is_whole_text_trimmed() {
    let seg = ResponseSegmenter::default();
    assert_eq!(seg.segment("  hello  "), vec!["hello".to_string()]);
    assert!(seg.segment("   ").is_empty());
    assert!(seg.segment("").is_empty());
}

#[test]
fn segment_keeps_partial_markers() {
    let seg = ResponseSegmenter::new();
    assert_eq!(seg.segment("a<stop>b<stop/"), vec!["a<stop>b<stop/".to_string()]);
    assert_eq!(seg.segment("x<stop/<stop/>y"), vec!["x<stop/".to_string(), "y".to_string()]);
}

#[test]
fn has_stop_finds_marker_anywhere() {
    let seg = ResponseSegmenter::new();
    assert!(seg.has_stop("<stop/>"));
    assert!(seg.has_stop("前<stop/>后"));
    assert!(!seg.has_stop("<stop>"));
    assert!(!seg.has_stop(""));
}

#[test]
fn extract_next_none_cases() {
    let seg = ResponseSegmenter::new();
    assert!(seg.extract_next("no marker").is_none());
    assert!(seg.extract_next("   <stop/>later").is_none());
}

#[test]
fn extract_next_then_segment_rest_matches_segment() {
    let seg = ResponseSegmenter::new();
    let text = " one <stop/> two <stop/>three";
    let (first, rest) = seg.extract_next(text).unwrap();
    assert_eq!(rest, " two <stop/>three");
    let mut expected = vec![first];
    expected.extend(seg.segment(&rest));
    assert_eq!(seg.segment(text), expected);
}

#[test]
fn system_prompt_mentions_marker() {
    let seg = ResponseSegmenter::new();
    assert!(seg.has_stop(ResponseSegmenter::system_prompt()));
    assert!(ResponseSegmenter::system_prompt().starts_with("你是语音助手。"));
}

#[test]
fn text_buffer_push_and_flush() {
    let mut buf = TextBuffer::new();
    assert!(buf.is_empty());
    assert_eq!(buf.push("你好"), None);
    assert_eq!(buf.len(), 6);
    assert_eq!(buf.push("，世界<st"), None);
    assert_eq!(buf.push("op/>再"), Some("你好，世界".to_string()));
    assert_eq!(buf.len(), 3);
    assert_eq!(buf.push(" <stop/>"), Some("再".to_string()));
    assert!(buf.is_empty());
    assert_eq!(buf.push("  tail "), None);
    assert_eq!(buf.extract_all(), Some("tail".to_string()));
    assert!(buf.is_empty());
    assert_eq!(buf.extract_all(), None);
}

#[test]
fn text_buffer_hands_out_blank_segment_at_marker() {
    let mut buf = TextBuffer::default();
    assert_eq!(buf.push("  <stop/>next"), Some(String::new()));
    assert_eq!(buf.len(), 4);
    assert_eq!(buf.push("   "), None);
    assert_eq!(buf.extract_all(), Some("next".to_string()));
    assert_eq!(buf.push("   "), None);
    assert_eq!(buf.extract_all(), None);
    assert!(buf.is_empty());
    assert_eq!(buf.len(), 0);
    assert_eq!(buf.push("<stop/>x"), Some(String::new()));
    assert_eq!(buf.len(), 1);
    assert!(!buf.is_empty());
}

#[test]
fn text_buffer_whitespace_is_not_empty() {
    let mut buf = TextBuffer::new();
    assert_eq!(buf.push(" "), None);
    assert!(!buf.is_empty());
    assert_eq!(buf.len(), 1);
}

#[test]
fn streaming_then_flush_matches_whole_reply() {
    let seg = ResponseSegmenter::new();
    let chunks = ["你好", "，今天<st", "op/>  <stop/>天气", "不错。<stop/>", "适合散步"];
    let whole: String = chunks.concat();
    let mut buf = TextBuffer::new();
    let mut spoken: Vec<String> = Vec::new();
    for c in chunks.iter() {
        if let Some(s) = buf.push(c) {
            if !s.is_empty() {
                spoken.push(s);
            }
        }
    }
    if let Some(s) = buf.extract_all() {
        spoken.push(s);
    }
    assert_eq!(spoken, seg.segment(&whole));
    assert_eq!(spoken, vec!["你好，今天".to_string(), "天气不错。".to_string(), "适合散步".to_string()]);
}

#[test]
fn marker_between_texts_joins_segments() {
    let seg = ResponseSegmenter::new();
    let a = "一。<stop/> 二 ";
    let b = "<stop/>三<stop/>";
    let joined = format!("{}<stop/>{}", a, b);
    let mut expected = seg.segment(a);
    expected.extend(seg.segment(b));
    assert_eq!(seg.segment(&joined), expected);
    assert_eq!(seg.segment("ab<stop"), vec!["ab<stop".to_string()]);
    assert_eq!(seg.segment("ab<stop<stop/>c"), vec!["ab<stop".to_string(), "c".to_string()]);
}

#[test]
fn text_buffer_push_matches_extract_next() {
    let seg = ResponseSegmenter::new();
    let text = "第一句。<stop/>第二";
    let mut buf = TextBuffer::new();
    let pushed = buf.push(text);
    let (first, rest) = seg.extract_next(text).unwrap();
    assert_eq!(pushed, Some(first));
    assert_eq!(buf.len(), rest.len());
    assert_eq!(buf.extract_all(), Some(rest));
}
