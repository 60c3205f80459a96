use cortexmind::json::JsonDoc;
use cortexmind::rag::answer_generator::{
    answer_messages, build_system_prompt, build_user_prompt, context_size, extract_citations,
};
use cortexmind::rag::context_builder::{CodeExample, ContextBuilder, DocumentText};
use cortexmind::rag::llm_integration::{
    read_anthropic_reply, read_ollama_reply, read_openai_reply, request_url, split_system, LLMMessage,
    LLMProvider,
};
use cortexmind::rag::query_parser::QueryIntent;

fn obj(entries: Vec<(&str, JsonDoc)>) -> JsonDoc {
    JsonDoc::Object(entries.into_iter().map(|(k, v)| (k.to_string(), v)).collect())
}

fn text(s: &str) -> JsonDoc {
    JsonDoc::Text(s.to_string())
}

fn json_object(pairs: &[(&str, &str)]) -> serde_json::Value {
    let mut m = serde_json::Map::new();
    for (k, v) in pairs {
        m.insert(k.to_string(), serde_json::Value::String(v.to_string()));
    }
    serde_json::Value::Object(m)
}

fn msg(role: &str, content: &str) -> LLMMessage {
    LLMMessage { role: role.to_string(), content: content.to_string() }
}

fn doc(title: &str, content: &str) -> DocumentText {
    DocumentText {
        id: format!("id-{}", title),
        title: title.to_string(),
        content: content.to_string(),
        file_path: None,
        language: None,
    }
}

#[test]
fn request_urls_per_provider() {
    assert_eq!(request_url(&LLMProvider::OpenAI, "https://api.x"), Ok("https://api.x/chat/completions".to_string()));
    assert_eq!(request_url(&LLMProvider::Ollama, "http://h"), Ok("http://h/api/chat".to_string()));
    assert_eq!(request_url(&LLMProvider::Anthropic, "https://a"), Ok("https://a/v1/messages".to_string()));
    assert_eq!(
        request_url(&LLMProvider::Other("x".to_string()), "u"),
        Err("Unsupported LLM provider".to_string())
    );
}

#[test]
fn anthropic_conversations_put_the_system_message_apart() {
    let ms = vec![msg("user", "a"), msg("system", "rules"), msg("assistant", "b"), msg("system", "more")];
    let (system, rest) = split_system(&ms);
    assert_eq!(system, Some("rules".to_string()));
    let roles: Vec<&str> = rest.iter().map(|m| m.role.as_str()).collect();
    assert_eq!(roles, vec!["user", "assistant"]);
    let (none, all) = split_system(&vec![msg("user", "x")]);
    assert!(none.is_none());
    assert_eq!(all.len(), 1);
}

#[test]
fn openai_replies_are_read() {
    let reply = obj(vec![
        (
            "choices",
            JsonDoc::Array(vec![obj(vec![
                ("message", obj(vec![("content", text("hello"))])),
                ("finish_reason", text("stop")),
            ])]),
        ),
        ("usage", obj(vec![("prompt_tokens", JsonDoc::Number(Some(3))), ("total_tokens", JsonDoc::Number(Some(7)))])),
    ]);
    let r = read_openai_reply(&reply, "gpt").unwrap();
    assert_eq!(r.content, "hello");
    assert_eq!(r.model, "gpt");
    assert_eq!(r.usage.prompt_tokens, 3);
    assert_eq!(r.usage.completion_tokens, 0);
    assert_eq!(r.usage.total_tokens, 7);
    assert_eq!(r.finish_reason, "stop");
    let empty = obj(vec![("choices", JsonDoc::Array(vec![]))]);
    assert_eq!(read_openai_reply(&empty, "gpt").unwrap_err(), "No content in response");
}

#[test]
fn ollama_and_anthropic_replies_are_read() {
    let o = obj(vec![("message", obj(vec![("content", text("hi"))]))]);
    let r = read_ollama_reply(&o, "llama").unwrap();
    assert_eq!(r.content, "hi");
    assert_eq!(r.finish_reason, "stop");
    assert_eq!(r.usage.total_tokens, 0);
    assert!(read_ollama_reply(&JsonDoc::Null, "llama").is_err());

    let a = obj(vec![
        ("content", JsonDoc::Array(vec![obj(vec![("type", text("text")), ("text", text("yo"))])])),
        ("usage", obj(vec![("input_tokens", JsonDoc::Number(Some(10))), ("output_tokens", JsonDoc::Number(Some(5)))])),
    ]);
    let r = read_anthropic_reply(&a, "c").unwrap();
    assert_eq!(r.content, "yo");
    assert_eq!(r.usage.prompt_tokens, 10);
    assert_eq!(r.usage.completion_tokens, 5);
    assert_eq!(r.usage.total_tokens, 15);
    assert_eq!(r.finish_reason, "unknown");
}

#[test]
fn system_prompt_follows_the_intent() {
    let p = build_system_prompt(&QueryIntent::List);
    assert!(p.starts_with("You are a helpful AI assistant for a knowledge management system. Your task is"));
    assert!(p.ends_with(" Provide a comprehensive list of the requested items."));
}

#[test]
fn user_prompt_shows_question_documents_and_examples() {
    let docs = vec![doc("A", "alpha")];
    let ex = vec![CodeExample {
        id: "e".to_string(),
        description: "d".to_string(),
        code: "fn x() {}".to_string(),
        language: "rust".to_string(),
        usage: "u".to_string(),
    }];
    let p = build_user_prompt("Why?", &docs, &ex, true);
    let expected = "Question: Why?\n\nContext:\n\n[Document 1]\nTitle: A\nContent: alpha\n\n\nCode Examples:\n\n[Example 1]\nLanguage: rust\nCode:\n```\nfn x() {}\n```\n\nPlease provide a helpful answer based on the context above. If the context doesn't contain enough information, acknowledge this and suggest what additional information might be needed.";
    assert_eq!(p, expected);
    let no_code = build_user_prompt("Why?", &[], &ex, false);
    assert!(no_code.starts_with("Question: Why?\n\n\nPlease provide"));
}

#[test]
fn user_prompt_keeps_five_documents_cut_to_500_characters() {
    let long = "é".repeat(600);
    let docs: Vec<DocumentText> = (0..7).map(|i| doc(&format!("T{}", i), &long)).collect();
    let p = build_user_prompt("q", &docs, &[], true);
    assert!(p.contains("[Document 5]"));
    assert!(!p.contains("[Document 6]"));
    assert!(p.contains(&format!("Content: {}\n\n", "é".repeat(500))));
    assert!(!p.contains(&"é".repeat(501)));
}

#[test]
fn messages_citations_and_context_size() {
    let docs = vec![doc("A", &"x".repeat(250)), doc("B", "héllo")];
    let ms = answer_messages(&QueryIntent::Search, "q", &docs, &[], true);
    assert_eq!(ms.len(), 2);
    assert_eq!(ms[0].role, "system");
    assert_eq!(ms[1].role, "user");
    let cs = extract_citations(&docs);
    assert_eq!(cs.len(), 2);
    assert_eq!(cs[0].snippet.len(), 200);
    assert_eq!(cs[1].document_id, "id-B");
    assert_eq!(cs[1].snippet, "héllo");
    assert_eq!(context_size(&docs, &[]), 250 + 6);
}

#[test]
fn documents_and_entities_from_search() {
    let b = ContextBuilder::new();
    let results = vec![
        json_object(&[("title", "Doc"), ("content", "body"), ("language", "rust")]),
        serde_json::Value::Null,
    ];
    let docs = b.extract_documents(&results);
    assert_eq!(docs.len(), 2);
    assert_eq!(docs[0].title, "Doc");
    assert_eq!(docs[0].language, Some("rust".to_string()));
    assert_eq!(docs[1].title, "Untitled");
    assert_eq!(docs[1].content, "");
    assert_eq!(b.extract_entity_names("Ask Alice about Rust and Verus"), vec!["Alice", "Rust", "Verus"]);
}

#[test]
fn context_is_built_from_results_and_question() {
    let b = ContextBuilder::new();
    let mut code = serde_json::Map::new();
    code.insert("type".to_string(), serde_json::Value::String("code".to_string()));
    code.insert("content".to_string(), serde_json::Value::String("fn main() {}".to_string()));
    let mut doc = serde_json::Map::new();
    doc.insert("title".to_string(), serde_json::Value::String("Guide".to_string()));
    let results = vec![serde_json::Value::Object(code), serde_json::Value::Object(doc)];
    let parts = b.build_context("How does Tauri use Rust here", &results);
    assert_eq!(parts.documents.len(), 2);
    assert_eq!(parts.documents[0].title, "Untitled");
    assert_eq!(parts.documents[1].title, "Guide");
    assert_eq!(parts.code_examples.len(), 1);
    assert_eq!(parts.code_examples[0].code, "fn main() {}");
    assert_eq!(parts.code_examples[0].language, "unknown");
    assert_eq!(parts.entity_names, vec!["Tauri".to_string(), "Rust".to_string()]);
    assert_eq!(parts.metadata.max_context_length, 4000);
    assert!(parts.metadata.include_code);
}
