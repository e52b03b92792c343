use chat_assistant::memory::{MemoryStore, UserProfile};

#[test]
fn preferences_read_after_write() {
    let mut m = MemoryStore::new();
    assert_eq!(m.get_preference("lang"), None);
    m.save_preference("lang", "zh");
    assert_eq!(m.get_preference("lang"), Some("zh".to_string()));
    m.save_preference("lang", "en");
    assert_eq!(m.get_preference("lang"), Some("en".to_string()));
}

#[test]
fn short_term_context_and_clear() {
    let mut m = MemoryStore::default();
    m.add_short_term("user", "hello");
    m.add_short_term("assistant", "hi");
    let ctx = m.get_short_term();
    assert_eq!(ctx.len(), 2);
    assert_eq!(ctx[0].role, "user");
    assert_eq!(ctx[1].content, "hi");
    m.clear_short_term();
    assert!(m.get_short_term().is_empty());
}

#[test]
fn summaries_capped_at_one_hundred() {
    let mut m = MemoryStore::new();
    for i in 0..105 {
        m.add_summary(&format!("s{}", i), "sum", vec![format!("t{}", i)]);
    }
    let all = m.get_recent_summaries(1000);
    assert_eq!(all.len(), 100);
    assert_eq!(all[0].session_id, "s5");
    assert_eq!(all[99].session_id, "s104");
    assert_eq!(all[99].topics, vec!["t104".to_string()]);
    let recent = m.get_recent_summaries(3);
    let ids: Vec<&str> = recent.iter().map(|s| s.session_id.as_str()).collect();
    assert_eq!(ids, vec!["s102", "s103", "s104"]);
    assert!(m.get_recent_summaries(0).is_empty());
}

#[test]
fn profile_round_trip() {
    let mut m = MemoryStore::new();
    assert_eq!(m.get_profile().name, None);
    let p = UserProfile {
        name: Some("Li".to_string()),
        language: "zh".to_string(),
        timezone: "UTC+8".to_string(),
        interests: vec!["music".to_string()],
    };
    m.update_profile(p.clone());
    let q = m.get_profile();
    assert_eq!(q.name, p.name);
    assert_eq!(q.language, p.language);
    assert_eq!(q.timezone, p.timezone);
    assert_eq!(q.interests, p.interests);
}

#[test]
fn format_context_sections() {
    let mut m = MemoryStore::new();
    assert_eq!(m.format_context(), "");
    m.add_short_term("user", "hello");
    assert_eq!(m.format_context(), "## Recent Conversation\nuser: hello\n");
    m.save_preference("tone", "calm");
    assert_eq!(
        m.format_context(),
        "## Recent Conversation\nuser: hello\n\n## User Preferences\ntone: calm\n"
    );
    m.clear_short_term();
    assert_eq!(m.format_context(), "\n## User Preferences\ntone: calm\n");
}

#[test]
fn updated_preference_keeps_its_line() {
    let mut m = MemoryStore::new();
    m.save_preference("a", "1");
    m.save_preference("b", "2");
    m.save_preference("a", "3");
    assert_eq!(m.format_context(), "\n## User Preferences\na: 3\nb: 2\n");
}
