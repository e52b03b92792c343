use chat_assistant::llm::agent::{stream_step, StreamItem};
use chat_assistant::app::{App, AppState, ChunkAction};
use chat_assistant::asr::recognizer::{classify_result, AsrEvent, AsrRecognizerBuilder};
use chat_assistant::config::{AppSettings, AsrConfig, SessionConfig, ToolsConfig};
use chat_assistant::tts::synthesizer::speaker_for;
use chat_assistant::wakeword::detector::detected_keyword;

#[test]
fn wake_word_and_recognition_flow() {
    let mut app = App::new(20);
    assert_eq!(app.get_state(), AppState::Idle);
    assert!(!app.is_continuous_mode());
    assert_eq!(app.chunk_action(), ChunkAction::DetectWakeWord);
    assert_eq!(app.process_audio(Some(AsrEvent::Final("ignored".into()))), None);
    assert_eq!(app.get_state(), AppState::Idle);
    assert!(app.on_wake_word());
    assert_eq!(app.get_state(), AppState::Listening);
    assert_eq!(app.chunk_action(), ChunkAction::Recognize);
    assert!(!app.on_wake_word());
    assert_eq!(app.process_audio(None), None);
    assert_eq!(app.get_state(), AppState::Listening);
    assert_eq!(app.process_audio(Some(AsrEvent::Partial("你好".into()))), Some("你好".to_string()));
    assert_eq!(app.get_state(), AppState::Processing);
    assert_eq!(app.chunk_action(), ChunkAction::Defer);
    assert!(!app.on_wake_word());
    app.on_reply(true);
    assert_eq!(app.get_state(), AppState::Speaking);
    assert_eq!(app.chunk_action(), ChunkAction::DetectWakeWord);
    app.on_barge_in();
    assert_eq!(app.get_state(), AppState::Listening);
    app.set_state(AppState::Processing);
    app.on_reply(false);
    assert_eq!(app.get_state(), AppState::Idle);
}

#[test]
fn continuous_mode_actions() {
    let mut app = App::new(1);
    app.set_continuous_mode(true);
    assert!(app.is_continuous_mode());
    assert_eq!(app.chunk_action(), ChunkAction::WakeDirectly);
    app.set_state(AppState::Speaking);
    assert_eq!(app.chunk_action(), ChunkAction::Ignore);
    let id = app.session_manager().create_session("assistant");
    assert_eq!(app.session_manager().current_session_id(), Some(id));
    app.memory_store().save_preference("k", "v");
    assert_eq!(app.memory_store().get_preference("k"), Some("v".to_string()));
}

#[test]
fn recognizer_results() {
    assert!(classify_result(String::new(), true).is_none());
    assert!(matches!(classify_result("a".into(), true), Some(AsrEvent::Final(t)) if t == "a"));
    assert!(matches!(classify_result("b".into(), false), Some(AsrEvent::Partial(t)) if t == "b"));
    assert_eq!(AsrEvent::Final("z".into()).into_text(), "z");
}

#[test]
fn recognizer_builder_settings() {
    let b = AsrRecognizerBuilder::new();
    assert_eq!(b.provider_name(), "cpu");
    assert_eq!(b.chunk_size_value(), 3200);
    assert_eq!(b.sample_rate_value(), 16000);
    assert_eq!(b.encoder_path(), "");
    let b = AsrRecognizerBuilder::default()
        .encoder("e.onnx")
        .decoder("d.onnx")
        .joiner("j.onnx")
        .tokens("t.txt")
        .provider("cuda")
        .chunk_size(1600)
        .sample_rate(8000);
    assert_eq!(b.encoder_path(), "e.onnx");
    assert_eq!(b.decoder_path(), "d.onnx");
    assert_eq!(b.joiner_path(), "j.onnx");
    assert_eq!(b.tokens_path(), "t.txt");
    assert_eq!(b.provider_name(), "cuda");
    assert_eq!(b.chunk_size_value(), 1600);
    assert_eq!(b.sample_rate_value(), 8000);
}

#[test]
fn default_settings() {
    let asr = AsrConfig::default();
    assert_eq!(asr.encoder, "./models/asr/encoder.onnx");
    assert_eq!(asr.chunk_size, 3200);
    assert_eq!(asr.sample_rate, 16000);
    assert_eq!(asr.provider, "cpu");
    let tools = ToolsConfig::default();
    assert!(tools.enable_builtin && tools.mcp_config.is_none());
    let session = SessionConfig::default();
    assert_eq!(session.max_history, 20);
    assert_eq!(session.storage_path, "./data/sessions");
    let app = AppSettings::default();
    assert_eq!(app.name, "Chat Assistant");
    assert_eq!(app.default_persona, "assistant");
    assert!(!app.continuous_mode);
}

#[test]
fn speaker_and_keyword_choice() {
    assert_eq!(speaker_for(3, 10), 3);
    assert_eq!(speaker_for(10, 10), 0);
    assert_eq!(speaker_for(0, 0), 0);
    assert_eq!(detected_keyword(String::new()), None);
    assert_eq!(detected_keyword("玉米糊".into()), Some("玉米糊".to_string()));
}

#[test]
fn reply_stream_steps() {
    let s = stream_step(StreamItem::Text("hi".into()));
    assert_eq!(s.emit, Some(Ok("hi".to_string())));
    assert!(!s.stop);
    let s = stream_step(StreamItem::Failed("boom".into()));
    assert_eq!(s.emit, Some(Err("boom".to_string())));
    assert!(s.stop);
    let s = stream_step(StreamItem::Final);
    assert!(s.emit.is_none() && !s.stop);
    let s = stream_step(StreamItem::Other);
    assert!(s.emit.is_none() && !s.stop);
}

#[test]
fn new_app_starts_empty_with_its_history_limit() {
    let mut app = App::new(2);
    assert!(app.session_manager().list_sessions().is_empty());
    assert_eq!(app.session_manager().current_session_id(), None);
    assert!(app.session_manager().get_messages().is_empty());
    assert_eq!(app.memory_store().format_context(), "");
    assert!(app.memory_store().get_short_term().is_empty());
    assert_eq!(app.memory_store().get_profile().name, None);
    app.session_manager().create_session("assistant");
    for text in ["one", "two", "three"] {
        app.session_manager().add_message("user", text);
    }
    let recent = app.session_manager().get_messages();
    assert_eq!(recent.len(), 2);
    assert_eq!(recent[1].content, "three");
}
