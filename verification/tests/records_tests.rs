use cortexmind::agents::agent_sync::AgentSessionSync;
use cortexmind::agents::monitor::{AgentMonitor, TaskStats};
use cortexmind::search::keyword_index::IndexedDocument;
use cortexmind::agents::health::{health_from_connect, AgentHealthChecker};
use cortexmind::multimodal::file_preview::{CacheStats, FilePreview};
use cortexmind::tasks::{export_markdown_text, new_task, new_task_markdown, task_markdown, tasks_with_tag, Task};
use cortexmind::vector::search_manager::{
    deduplicate_positions, filter_positions, paginate_positions, source_priority_position,
};

fn strings(v: &[&str]) -> Vec<String> {
    v.iter().map(|s| s.to_string()).collect()
}

#[test]
fn sync_log_records_and_answers() {
    let mut s = AgentSessionSync::new();
    assert!(s.needs_sync("opencode", 60, 1000));
    assert_eq!(s.sync_target("opencode"), Err("Agent opencode not registered".to_string()));
    s.register_agent("opencode");
    s.register_agent("opencode");
    assert_eq!(s.registered_agents(), strings(&["opencode"]));
    assert!(s.sync_target("opencode").is_ok());
    s.record_sync("opencode", 1000);
    assert_eq!(s.last_sync_of("opencode"), Some(1000));
    assert!(!s.needs_sync("opencode", 60, 1060));
    assert!(s.needs_sync("opencode", 60, 1061));
    s.record_sync("cursor", 5);
    s.record_sync("opencode", 2000);
    assert_eq!(s.last_sync_of("opencode"), Some(2000));
    assert_eq!(s.get_sync_status().len(), 2);
}

#[test]
fn health_checker_registers_and_reports() {
    let mut h = AgentHealthChecker::new();
    assert!(h.register_agent("opencode").is_ok());
    assert!(h.register_agent("opencode").is_ok());
    assert_eq!(h.registered_agents(), strings(&["opencode"]));
    assert!(h.get_health_status("opencode").is_none());
    assert!(h.get_all_health_status().is_empty());
    let ok = health_from_connect("opencode", Ok(()), 7);
    assert!(ok.is_healthy && ok.details.logs_accessible);
    let bad = health_from_connect("cursor", Err("no logs".to_string()), 7);
    assert!(!bad.is_healthy);
    assert_eq!(bad.details.error_message, Some("no logs".to_string()));
}

#[test]
fn preview_cache_drops_the_oldest_fifth() {
    let mut p: FilePreview<u32> = FilePreview::new().with_cache_size(5);
    for i in 0..5u32 {
        p.add_to_cache(format!("f{}", i), i, 10, 100 + i as i64);
    }
    assert_eq!(p.get_cache_stats(), CacheStats { entry_count: 5, total_size: 50, max_cache_size: 5 });
    assert!(p.touch("f0", 200));
    assert!(!p.touch("nope", 200));
    p.add_to_cache("f5".to_string(), 5, 10, 300);
    // Six entries over a bound of five: one (a fifth of five) goes, the
    // one read longest ago, which is now f1.
    assert_eq!(p.get_cache_stats().entry_count, 5);
    assert!(p.cached("f1").is_none());
    assert_eq!(p.cached("f0"), Some(&0));
    assert_eq!(p.cached("f5"), Some(&5));
    p.add_to_cache("f5".to_string(), 55, 1, 400);
    assert_eq!(p.cached("f5"), Some(&55));
    assert_eq!(p.get_cache_stats().total_size, 41);
    p.clear_cache();
    assert_eq!(p.get_cache_stats().entry_count, 0);
}

#[test]
fn result_positions() {
    let ids = strings(&["a", "b", "a", "c", "b"]);
    assert_eq!(deduplicate_positions(&ids), vec![0, 1, 3]);
    let sources = strings(&["file", "memory", "file"]);
    assert_eq!(filter_positions(&sources, Some("file")), vec![0, 2]);
    assert_eq!(filter_positions(&sources, None), vec![0, 1, 2]);
    assert_eq!(paginate_positions(10, 1, 4), (4, 8));
    assert_eq!(paginate_positions(10, 2, 4), (8, 10));
    assert_eq!(paginate_positions(10, 3, 4), (0, 0));
    let prio = strings(&["agent_session", "file", "memory"]);
    assert_eq!(source_priority_position(&prio, "local_file"), Some(1));
    assert_eq!(source_priority_position(&prio, "web"), None);
}

fn task(title: &str, tags: &[&str]) -> Task {
    let mut t = new_task(format!("id-{}", title), title, 0, "/tmp/t.md".to_string());
    t.tags = strings(tags);
    t
}

#[test]
fn task_files_and_export() {
    let t = new_task("i".to_string(), "Write", 5, "/x/task.md".to_string());
    assert_eq!(t.status, "todo");
    assert_eq!(t.priority, "medium");
    assert_eq!(t.markdown_file, Some("/x/task.md".to_string()));
    assert_eq!(
        new_task_markdown("Write", "2024-01-02 03:04:05"),
        "# Write\n\n\n---\n\n**创建时间:** 2024-01-02 03:04:05\n**状态:** 待办\n**优先级:** 中\n\n## 标签\n\n\n## 子任务\n\n- [ ] \n\n## 备注\n\n"
    );
    let tagged = task("Tagged", &["a", "b"]);
    let md = task_markdown(&tagged).unwrap();
    assert!(md.starts_with("# Tagged\n\n\n\n---\n\n**创建时间:** 1970-01-01 00:00:00\n**更新时间:** 1970-01-01 00:00:00\n"));
    assert!(md.contains("## 标签\n\n- #a\n- #b\n\n## 子任务"));
    let mut far = task("Far", &[]);
    far.created_at = i64::MAX;
    assert!(task_markdown(&far).is_none());

    let mut due = task("Due", &["x", "y"]);
    due.description = "desc".to_string();
    due.due_date = Some(86_400_000);
    let out = export_markdown_text(&[due, task("Plain", &[])], "NOW").unwrap();
    assert!(out.starts_with("# MindCortex 任务备份\n\n**导出时间:** NOW\n\n---\n\n## 任务列表\n\n### Due [todo]\n\ndesc\n\n"));
    assert!(out.contains("- **截止日期:** 1970-01-02 00:00:00\n- **标签:** x, y\n\n---\n\n### Plain [todo]\n\n- **优先级:** medium\n"));
    let mut bad = task("Bad", &[]);
    bad.due_date = Some(i64::MAX);
    assert!(export_markdown_text(&[bad], "NOW").is_none());
}

#[test]
fn tasks_are_filtered_by_tag() {
    let ts = vec![task("A", &["x"]), task("B", &["y"]), task("C", &["x", "y"])];
    let xs: Vec<String> = tasks_with_tag(&ts, "x").iter().map(|t| t.title.clone()).collect();
    assert_eq!(xs, vec!["A", "C"]);
    assert!(tasks_with_tag(&ts, "z").is_empty());
}

#[test]
fn monitor_counts_tasks_and_tokens() {
    let mut m = AgentMonitor::new("agent".to_string());
    assert!(!m.is_monitoring());
    m.start(100);
    m.start(200);
    assert_eq!(m.started_at(), Some(100));
    m.record_task(30, true);
    m.record_task(10, false);
    m.record_task(50, true);
    let s = m.get_task_stats();
    assert_eq!(s.task_count, 3);
    assert_eq!(s.success_count, 2);
    assert_eq!(s.failure_count, 1);
    assert_eq!(s.max_task_duration_ms, 50);
    assert_eq!(s.min_task_duration_ms, 10);
    assert_eq!(m.get_total_duration(), 90);
    m.record_api_call(100, 20);
    m.record_api_call(1, 2);
    assert_eq!(m.get_api_call_count(), 2);
    assert_eq!(m.get_token_usage().total_tokens, 123);
    m.reset_metrics();
    assert_eq!(m.get_task_stats(), TaskStats::new());
    assert_eq!(m.recorded_tasks(), 0);
    assert!(m.is_monitoring());
    m.stop();
    assert!(m.started_at().is_none());
}

#[test]
fn indexed_documents_from_text() {
    let d = IndexedDocument::from_text("d1", "héllo", 42);
    assert_eq!(d.content_length, 6);
    assert_eq!(d.file_path, "unknown");
    assert_eq!(d.language, "unknown");
    assert_eq!(d.created_at, 42);
}

fn session(id: &str) -> cortexmind::agents::SessionData {
    cortexmind::agents::SessionData {
        id: id.to_string(),
        agent_type: "opencode".to_string(),
        timestamp: 1,
        messages: Vec::new(),
        metadata: serde_json::Value::Null,
    }
}

#[test]
fn syncing_records_only_fetches_that_succeeded() {
    let mut s = AgentSessionSync::new();
    let r = s.sync_agent("opencode", Ok(vec![session("a")]), 10);
    assert_eq!(r.unwrap_err(), "Agent opencode not registered");
    assert_eq!(s.last_sync_of("opencode"), None);
    s.register_agent("opencode");
    s.register_agent("cursor");
    assert_eq!(s.sync_agent("cursor", Err("offline".to_string()), 10).unwrap_err(), "offline");
    assert_eq!(s.last_sync_of("cursor"), None);
    let got = s.sync_agent("opencode", Ok(vec![session("a")]), 10).unwrap();
    assert_eq!(got.len(), 1);
    assert_eq!(s.last_sync_of("opencode"), Some(10));

    let all = s
        .sync_all_agents(vec![Ok(vec![session("b"), session("c")]), Err("offline".to_string())], 20)
        .unwrap();
    let ids: Vec<String> = all.iter().map(|x| x.id.clone()).collect();
    assert_eq!(ids, strings(&["b", "c"]));
    assert_eq!(s.last_sync_of("opencode"), Some(20));
    assert_eq!(s.last_sync_of("cursor"), None);
    let all = s.sync_all_agents(vec![Ok(vec![]), Ok(vec![session("d")])], 30).unwrap();
    assert_eq!(all.len(), 1);
    assert_eq!(s.last_sync_of("cursor"), Some(30));
}
