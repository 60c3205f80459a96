use cortexmind::agents::{Attachment, Message, SessionData};
use cortexmind::extractor::{ExtractorConfig, KnowledgeExtractor};

fn message(role: &str, content: &str) -> Message {
    Message { role: role.to_string(), content: content.to_string(), timestamp: 42, attachments: vec![] }
}

fn extractor() -> KnowledgeExtractor {
    KnowledgeExtractor::new(ExtractorConfig::default())
}

#[test]
fn default_config_extracts_everything() {
    let c = ExtractorConfig::default();
    assert!(c.auto_extract && c.extract_code && c.extract_design && c.extract_insights);
    assert_eq!(c.max_content_length, 10000);
}

#[test]
fn tags_follow_the_technology_list() {
    let e = extractor();
    assert_eq!(
        e.extract_tags_from_content("Deploying a Rust service with Docker and Python"),
        vec!["python".to_string(), "rust".to_string(), "docker".to_string()]
    );
    assert!(e.extract_tags_from_content("nothing here").is_empty());
}

#[test]
fn titles_are_first_lines_cut_to_a_hundred_bytes() {
    let e = extractor();
    assert_eq!(e.extract_title_from_text("  Hello world  \nsecond"), "Hello world");
    assert_eq!(e.extract_title_from_text(""), "Untitled");
    let long = "a".repeat(120);
    assert_eq!(e.extract_title_from_text(&long), format!("{}...", "a".repeat(97)));
}

#[test]
fn summaries_are_cut_to_two_hundred_bytes() {
    let e = extractor();
    assert_eq!(e.generate_simple_summary("  short  "), "short");
    let long = "b".repeat(250);
    assert_eq!(e.generate_simple_summary(&long), format!("{}...", "b".repeat(197)));
    assert_eq!(e.generate_summary(&long), e.generate_simple_summary(&long));
}

#[test]
fn code_titles_come_from_names_or_comments() {
    let e = extractor();
    assert_eq!(e.extract_code_title("def hello():\n  pass", Some("python")), Some("python: hello".to_string()));
    assert_eq!(e.extract_code_title("struct Point {}", None), Some("code: Point".to_string()));
    assert_eq!(e.extract_code_title("// adds numbers\nx = 1", None), Some("adds numbers".to_string()));
    assert_eq!(e.extract_code_title("x = 1", None), Some("Code snippet".to_string()));
}

#[test]
fn design_messages_become_items() {
    let e = extractor();
    let m = message("assistant", "This design uses a queue between the two services, keeping them apart.");
    let items = e.extract_design_from_message(&m, "s1").unwrap();
    assert_eq!(items.len(), 1);
    assert_eq!(items[0].item_type, "design");
    assert_eq!(items[0].source_session_id, "s1");
    assert_eq!(items[0].timestamp, 42);
    assert!(e.extract_design_from_message(&message("user", "design"), "s1").is_none());
}

#[test]
fn code_attachments_become_items() {
    let e = extractor();
    let mut m = message("assistant", "here");
    m.attachments.push(Attachment {
        type_field: "code".to_string(),
        content: "def add(a, b):\n    return a + b".to_string(),
        language: Some("python".to_string()),
    });
    m.attachments.push(Attachment { type_field: "image".to_string(), content: "x".to_string(), language: None });
    let items = e.extract_code_from_message(&m, "s").unwrap();
    assert_eq!(items.len(), 1);
    assert_eq!(items[0].item_type, "code");
    assert_eq!(items[0].title, "python: add");
    assert!(items[0].tags.is_empty());
}

#[test]
fn projects_are_named_in_conversations() {
    let e = extractor();
    let s = SessionData {
        id: "s".to_string(),
        agent_type: "opencode".to_string(),
        timestamp: 7,
        messages: vec![message("user", "project: CortexMind，下一步")],
        metadata: serde_json::Value::Null,
    };
    let p = e.identify_project(&s).unwrap();
    assert_eq!(p.name, "CortexMind");
    let none = SessionData { messages: vec![message("user", "hello")], ..s.clone() };
    assert!(e.identify_project(&none).is_none());
}

#[test]
fn sessions_are_extracted() {
    let e = extractor();
    let s = SessionData {
        id: "s".to_string(),
        agent_type: "opencode".to_string(),
        timestamp: 7,
        messages: vec![message(
            "assistant",
            "A lesson learned: always pin your Docker images when you deploy anything.",
        )],
        metadata: serde_json::Value::Null,
    };
    let r = e.extract_from_sessions(&[s]).unwrap();
    assert_eq!(r.knowledge_items.len(), 1);
    assert_eq!(r.knowledge_items[0].item_type, "insight");
    assert_eq!(r.knowledge_items[0].tags, vec!["docker".to_string()]);
}

#[test]
fn summaries_count_characters_and_titles_cut_between_characters() {
    let e = extractor();
    let mixed = format!("ab{}", "知".repeat(70));
    assert_eq!(e.generate_simple_summary(&mixed), mixed);
    let long = "知".repeat(250);
    assert_eq!(e.generate_simple_summary(&long), format!("{}...", "知".repeat(197)));
    let wide = "知".repeat(40);
    assert_eq!(e.extract_title_from_text(&wide), format!("{}...", "知".repeat(32)));
}
