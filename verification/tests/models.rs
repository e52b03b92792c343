use chat_assistant::model_manager::{archive_name, ModelManager, ModelStatus, ASR_MODEL_URL, TTS_MODEL_URL, WAKEWORD_MODEL_URL};

#[test]
fn status_completeness_and_missing() {
    let all = ModelStatus { wakeword: true, asr: true, tts: true };
    assert!(all.is_all_complete());
    assert!(all.missing().is_empty());
    let some = ModelStatus { wakeword: false, asr: true, tts: false };
    assert!(!some.is_all_complete());
    assert_eq!(some.missing(), vec!["WakeWord", "TTS"]);
    let none = ModelStatus { wakeword: false, asr: false, tts: false };
    assert_eq!(none.missing(), vec!["WakeWord", "ASR", "TTS"]);
}

#[test]
fn check_models_from_present_paths() {
    let m = ModelManager::new();
    assert_eq!(m.models_dir(), "./models");
    let paths = m.paths_to_check();
    assert!(paths.contains(&"./models/asr/tokens.txt".to_string()));
    assert!(paths.contains(&"./models/kokoro".to_string()));
    let status = m.check_models(&paths);
    assert!(status.is_all_complete());
    let without: Vec<String> = paths
        .iter()
        .filter(|p| p.as_str() != "./models/kokoro/voices.bin")
        .cloned()
        .collect();
    let status = m.check_models(&without);
    assert_eq!(status, ModelStatus { wakeword: true, asr: true, tts: false });
    let status = m.check_models(&vec!["./models/asr".to_string()]);
    assert_eq!(status, ModelStatus { wakeword: false, asr: false, tts: false });
}

#[test]
fn download_plan_orders_largest_first() {
    let m = ModelManager::default();
    let plan = m.download_plan(&ModelStatus { wakeword: false, asr: false, tts: false });
    let dirs: Vec<&str> = plan.iter().map(|j| j.dir).collect();
    assert_eq!(dirs, vec!["asr", "kokoro", "wakeword"]);
    assert_eq!(plan[0].url, ASR_MODEL_URL);
    assert_eq!(plan[1].url, TTS_MODEL_URL);
    assert_eq!(plan[2].url, WAKEWORD_MODEL_URL);
    assert!(plan[2].setup_keywords && !plan[0].setup_keywords);
    assert!(m.download_plan(&ModelStatus { wakeword: true, asr: true, tts: true }).is_empty());
}

#[test]
fn archive_names() {
    assert_eq!(archive_name(TTS_MODEL_URL), "kokoro-multi-lang-v1_0.tar.bz2");
    assert_eq!(archive_name("plain"), "plain");
    assert_eq!(archive_name("a/b/"), "");
}
