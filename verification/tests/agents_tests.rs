use std::collections::HashMap;

use cortexmind::agents::collector::{CollectionConfig, KnowledgeCollector};
use cortexmind::agents::opencode::OpenCodeConnector;
use cortexmind::agents::task::{AgentTask, TaskPriority, TaskQueue, TaskStatus};

fn task(id: &str, priority: TaskPriority, created_at: i64) -> AgentTask {
    AgentTask {
        id: id.to_string(),
        agent_id: "agent".to_string(),
        task_type: "analysis".to_string(),
        status: TaskStatus::Pending,
        priority,
        payload: serde_json::Value::Null,
        result: None,
        error: None,
        created_at,
        started_at: None,
        completed_at: None,
        duration_ms: None,
        attempts: 0,
        max_attempts: 3,
        metadata: HashMap::new(),
    }
}

#[test]
fn priority_names_round_trip() {
    for p in [TaskPriority::Low, TaskPriority::Medium, TaskPriority::High, TaskPriority::Urgent] {
        assert_eq!(TaskPriority::from_str(p.as_str()), Some(p));
    }
    assert_eq!(TaskPriority::from_str("HIGH"), Some(TaskPriority::High));
    assert_eq!(TaskPriority::from_str("highest"), None);
    assert_eq!(TaskPriority::Urgent.to_string(), "urgent");
    assert_eq!(TaskPriority::Low.rank(), 0);
    assert_eq!(TaskPriority::Urgent.rank(), 3);
    assert_eq!(TaskStatus::Cancelled.to_string(), "cancelled");
}

#[test]
fn queue_keeps_priority_then_age_order() {
    let mut q = TaskQueue::new();
    assert!(q.is_empty());
    q.push(task("low", TaskPriority::Low, 1));
    q.push(task("urgent", TaskPriority::Urgent, 5));
    q.push(task("high-late", TaskPriority::High, 9));
    q.push(task("high-early", TaskPriority::High, 2));
    let order: Vec<String> = q.get_all_tasks().iter().map(|t| t.id.clone()).collect();
    assert_eq!(order, vec!["urgent", "high-early", "high-late", "low"]);
    assert_eq!(q.len(), 4);
    assert_eq!(q.peek().unwrap().id, "low");
    assert_eq!(q.pop().unwrap().id, "low");
    assert_eq!(q.pop().unwrap().id, "high-late");
    assert_eq!(q.len(), 2);
}

#[test]
fn queue_lookup_update_and_remove() {
    let mut q = TaskQueue::new();
    q.push(task("a", TaskPriority::Medium, 1));
    q.push(task("b", TaskPriority::Medium, 2));
    assert_eq!(q.get_by_id("b").unwrap().created_at, 2);
    assert!(q.get_by_id("c").is_none());
    let mut b = task("b", TaskPriority::Medium, 2);
    b.status = TaskStatus::Running;
    q.update_task(b);
    assert_eq!(q.get_running_tasks().len(), 1);
    assert_eq!(q.get_pending_tasks().len(), 1);
    assert_eq!(q.remove_by_id("a").unwrap().id, "a");
    assert!(q.remove_by_id("a").is_none());
    assert_eq!(q.len(), 1);
}

#[test]
fn task_state_queries() {
    let mut t = task("t", TaskPriority::Low, 0);
    assert!(!t.is_completed());
    assert!(!t.can_retry());
    t.status = TaskStatus::Failed;
    assert!(t.is_failed());
    assert!(t.can_retry());
    t.attempts = 3;
    assert!(!t.can_retry());
    t.status = TaskStatus::Completed;
    assert!(t.is_completed());
    assert!(t.get_duration().is_none());
    t.duration_ms = Some(1500);
    assert_eq!(t.get_duration(), Some(1500));
}

#[test]
fn opencode_log_is_read_into_sessions() {
    let c = OpenCodeConnector::new("/home/me");
    assert_eq!(c.get_log_path(), "/home/me/.opencode/logs/sessions.log");
    let log = "=== Session: abc ===\n[User]: hello\n[Assistant]:  hi there \nnoise\n=== Session: empty\n=== Session: def\n[User]: bye\n";
    let sessions = c.parse_log_content(log).unwrap();
    assert_eq!(sessions.len(), 2);
    assert_eq!(sessions[0].id, "abc ===");
    assert_eq!(sessions[0].agent_type, "opencode");
    assert_eq!(sessions[0].messages.len(), 2);
    assert_eq!(sessions[0].messages[0].role, "user");
    assert_eq!(sessions[0].messages[1].content, "hi there");
    assert_eq!(sessions[1].id, "def");
    assert_eq!(sessions[1].messages[0].content, "bye");
    assert_eq!(sessions[0].metadata["source"], "logfile");
    assert_eq!(sessions[0].metadata["message_count"], 2);
}

#[test]
fn recent_sessions_come_newest_first() {
    let c = OpenCodeConnector::new("/home/me");
    let log = "=== Session: one\n[User]: a\n=== Session: two\n[User]: b\n".to_string();
    let recent = c.get_recent_sessions(Ok(Some(log)), 1).unwrap();
    assert_eq!(recent.len(), 1);
    assert_eq!(recent[0].id, "two");
    assert!(c.get_recent_sessions(Ok(None), 5).unwrap().is_empty());
    let e = c.get_recent_sessions(Err("denied".to_string()), 5).unwrap_err();
    assert_eq!(e, "Failed to read OpenCode logs: denied");
}

#[test]
fn connecting_follows_whether_the_log_exists() {
    let mut c = OpenCodeConnector::new("/h").with_log_path("/tmp/x.log");
    assert_eq!(c.get_log_path(), "/tmp/x.log");
    assert!(c.connect(false).is_err());
    assert!(c.connect(true).is_ok());
    assert!(c.disconnect().is_ok());
}

#[test]
fn collector_classifies_and_summarises() {
    let c = KnowledgeCollector::new("agent".to_string(), CollectionConfig::default());
    assert_eq!(c.classify_content("An Exception was thrown"), "error");
    assert_eq!(c.classify_content("the fix is simple"), "solution");
    assert_eq!(c.classify_content("see the README"), "documentation");
    assert_eq!(c.classify_content("a common approach"), "pattern");
    assert_eq!(c.classify_content("hello"), "general");
    assert_eq!(c.extract_summary("   "), None);
    assert_eq!(c.extract_summary("  short  "), Some("short".to_string()));
    let long = "x".repeat(150);
    assert_eq!(c.extract_summary(&long), Some(format!("{}...", "x".repeat(100))));
}

#[test]
fn collector_filters_tasks() {
    let c = KnowledgeCollector::new("agent".to_string(), CollectionConfig::default());
    let mut t = task("t", TaskPriority::Low, 0);
    assert!(!c.should_collect_task(&t));
    t.status = TaskStatus::Completed;
    t.duration_ms = Some(500);
    assert!(!c.should_collect_task(&t));
    t.duration_ms = Some(2000);
    assert!(c.should_collect_task(&t));
    assert_eq!(c.get_total_collected(), 0);
    assert!(c.get_last_collection_time().is_none());
}

use cortexmind::agents::agent::{Agent, AgentStatus};
use cortexmind::agents::connector::{create_connector, ConnectorConfig, ConnectorType};
use cortexmind::agents::task::TaskConfig;

#[test]
fn agent_lifecycle_through_a_connector() {
    let mut connector = create_connector(&ConnectorType::Cursor, &ConnectorConfig::default()).unwrap();
    assert!(create_connector(&ConnectorType::Custom, &ConnectorConfig::default()).is_err());
    let mut agent = Agent::new("a1".to_string(), "Cursor".to_string(), "cursor".to_string());
    assert_eq!(agent.status, AgentStatus::Inactive);
    assert_eq!(agent.health_check(&connector), Ok(false));
    let config = TaskConfig::new("review".to_string(), serde_json::Value::Null);
    assert_eq!(agent.create_task(config).unwrap_err(), "Agent is not active");

    assert_eq!(agent.activate(&mut connector), Ok(()));
    assert_eq!(agent.status, AgentStatus::Active);
    assert!(agent.last_activity.is_some());
    assert_eq!(agent.health_check(&connector), Ok(true));

    assert_eq!(agent.pause(), Ok(()));
    assert_eq!(agent.pause().unwrap_err(), "Agent is not active");
    assert_eq!(agent.health_check(&connector), Ok(false));
    assert_eq!(agent.resume(), Ok(()));
    assert_eq!(agent.resume().unwrap_err(), "Agent is not paused");

    let config = TaskConfig::new("review".to_string(), serde_json::Value::Null);
    let mut task = agent.create_task(config).unwrap();
    assert_eq!(task.id.len(), 36);
    assert_eq!(task.agent_id, "a1");
    assert_eq!(task.status, TaskStatus::Pending);
    assert_eq!(agent.get_task_ids(), vec![task.id.clone()]);

    let value = agent.execute_task(&connector, &mut task).unwrap();
    assert_eq!(task.status, TaskStatus::Completed);
    assert_eq!(task.result.as_ref(), Some(&value));
    assert_eq!(value["status"], "completed");
    assert_eq!(value["task_id"], task.id.as_str());
    assert!(task.started_at.is_some() && task.completed_at.is_some());
    assert!(task.duration_ms.unwrap() >= 0);

    assert_eq!(agent.shutdown(&mut connector), Ok(()));
    assert_eq!(agent.status, AgentStatus::Inactive);
    assert_eq!(agent.health_check(&connector), Ok(false));
    let mut other = task.clone();
    assert_eq!(agent.execute_task(&connector, &mut other).unwrap_err(), "Agent is not active");
}

#[test]
fn failed_activation_keeps_the_reason() {
    let mut agent = Agent::new("a2".to_string(), "x".to_string(), "custom".to_string());
    assert!(agent.begin_activate());
    assert_eq!(agent.status, AgentStatus::Starting);
    let r = agent.finish_activate(Err("refused".to_string()));
    assert_eq!(r.unwrap_err(), "Failed to activate agent: refused");
    assert_eq!(agent.status, AgentStatus::Error);
    assert_eq!(agent.get_error(), Some("Failed to connect: refused"));
    assert_eq!(AgentStatus::ShuttingDown.as_str(), "shutting_down");
}

use cortexmind::agents::{create_agent_connector, AgentConnector};

#[test]
fn agent_connectors_by_type() {
    let mut c = create_agent_connector("opencode", "/home/u", "/home/u/sessions");
    match &c {
        AgentConnector::OpenCode(a) => assert_eq!(a.connector.get_log_path(), "/home/u/.opencode/logs/sessions.log"),
        _ => panic!("expected the OpenCode connector"),
    }
    assert_eq!(c.connect(false).unwrap_err(), "OpenCode logs not found");
    assert_eq!(c.connect(true), Ok(()));
    assert_eq!(c.disconnect(), Ok(()));
    assert_eq!(c.fetch_sessions(Ok(None)).unwrap().len(), 0);
    assert_eq!(
        c.fetch_sessions(Err("denied".to_string())).unwrap_err(),
        "Failed to read OpenCode logs: denied"
    );

    let mut c = create_agent_connector("claudecode", "/home/u", "/home/u/sessions");
    match &c {
        AgentConnector::ClaudeCode(a) => assert_eq!(a.session_path, "/home/u/sessions"),
        _ => panic!("expected the ClaudeCode connector"),
    }
    assert_eq!(c.connect(false).unwrap_err(), "ClaudeCode sessions not found");
    assert_eq!(c.fetch_sessions(Ok(Some("x".to_string()))).unwrap().len(), 0);

    let mut c = create_agent_connector("cursor", "/home/u", "/s");
    assert!(matches!(c, AgentConnector::Cursor(_)));
    assert_eq!(c.connect(false).unwrap_err(), "Cursor logs not found");

    let mut c = create_agent_connector("other", "/home/u", "/s");
    assert!(matches!(c, AgentConnector::Generic(_)));
    assert_eq!(c.connect(false), Ok(()));
}

#[test]
fn opencode_parse_logs_follows_the_read() {
    let c = OpenCodeConnector::new("/home/me");
    assert_eq!(c.parse_logs(Ok(None)).unwrap().len(), 0);
    assert_eq!(c.parse_logs(Err("denied".to_string())).unwrap_err(), "Failed to read OpenCode logs: denied");
    let sessions = c.parse_logs(Ok(Some("=== Session: s1\n[User]: hi\n".to_string()))).unwrap();
    assert_eq!(sessions.len(), 1);
    assert_eq!(sessions[0].id, "s1");
}

#[test]
fn agent_connections_read_their_type() {
    let mut m = serde_json::Map::new();
    m.insert("connection_type".to_string(), serde_json::Value::String("log".to_string()));
    let config = serde_json::Value::Object(m);
    let c = cortexmind::agents::add_agent_connection("opencode".to_string(), config.clone()).unwrap();
    assert_eq!((c.agent_type.as_str(), c.connection_type.as_str()), ("opencode", "log"));
    assert_eq!(c.config, config);
    let c = cortexmind::agents::add_agent_connection("cursor".to_string(), serde_json::Value::Null).unwrap();
    assert_eq!(c.connection_type, "http");
}

#[test]
fn failed_runs_are_retried_while_attempts_last() {
    let mut connector = create_connector(&ConnectorType::OpenCode, &ConnectorConfig::default()).unwrap();
    let mut agent = Agent::new("a3".to_string(), "x".to_string(), "opencode".to_string());
    agent.activate(&mut connector).unwrap();
    let mut task = agent.create_task(TaskConfig::new("t".to_string(), serde_json::Value::Null)).unwrap();
    assert_eq!((task.attempts, task.max_attempts), (0, 3));
    let fail = || Err::<serde_json::Value, String>("boom".to_string());
    let r = agent.execute_task_with(&mut task, vec![fail(), fail(), fail(), fail()]);
    assert_eq!(r, Err("boom".to_string()));
    assert_eq!(task.status, TaskStatus::Failed);
    assert_eq!(task.attempts, 3);
    assert_eq!(task.error, Some("boom".to_string()));
    assert!(task.completed_at.is_some());

    let mut task = agent.create_task(TaskConfig::new("t".to_string(), serde_json::Value::Null)).unwrap();
    let r = agent.execute_task_with(&mut task, vec![fail(), Ok(serde_json::Value::Bool(true)), fail(), fail()]);
    assert_eq!(r, Ok(serde_json::Value::Bool(true)));
    assert_eq!((task.status, task.attempts), (TaskStatus::Completed, 1));
}

#[test]
fn pushed_task_joins_the_queue_once() {
    let mut q = TaskQueue::new();
    q.push(task("a", TaskPriority::Medium, 3));
    q.push(task("b", TaskPriority::Low, 1));
    let before = q.len();
    q.push(task("c", TaskPriority::High, 7));
    assert_eq!(q.len(), before + 1);
    let mut ids: Vec<String> = q.get_all_tasks().iter().map(|t| t.id.clone()).collect();
    assert_eq!(ids, vec!["c", "a", "b"]);
    ids.sort();
    assert_eq!(ids, vec!["a", "b", "c"]);
}

#[test]
fn task_knowledge_is_stamped_with_the_collection_time() {
    let c = KnowledgeCollector::new("agent".to_string(), CollectionConfig::default());
    let mut t = task("t1", TaskPriority::Low, 0);
    let body = "y".repeat(120);
    t.payload = serde_json::from_str(&format!("{{\"title\": \"Notes\", \"content\": \"{}\", \"tags\": [\"x\"]}}", body)).unwrap();
    let item = c.extract_knowledge_from_task(&t).unwrap();
    assert_eq!(item.title, "Notes");
    assert_eq!(item.source, "task");
    assert_eq!(item.source_id, "t1");
    assert_eq!(item.content, body);
    let now = std::time::SystemTime::now().duration_since(std::time::UNIX_EPOCH).unwrap().as_secs() as i64;
    assert!(0 <= item.collected_at && item.collected_at < 10_000_000_000_000);
    assert!(item.collected_at <= now + 1 && now - item.collected_at < 60);
}
