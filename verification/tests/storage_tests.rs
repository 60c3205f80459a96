use cortexmind::storage::sync_scheduler::{SyncScheduler, SyncTaskType};
use cortexmind::storage::webdav_sync::{WebDAVConfig, WebDAVSync};

#[test]
fn test_webdav_config_validation() {
    let config = WebDAVConfig::default();
    let sync = WebDAVSync::new();

    assert!(sync.validate_config(&config).is_err());
}

#[test]
fn webdav_missing_fields_are_reported_in_order() {
    let sync = WebDAVSync::new();
    let mut config = WebDAVConfig::default();
    assert_eq!(sync.validate_config(&config), Err("WebDAV URL is required".to_string()));
    config.url = "https://dav.example.com".to_string();
    assert_eq!(sync.validate_config(&config), Err("Username is required".to_string()));
    config.username = "me".to_string();
    assert_eq!(sync.validate_config(&config), Err("Password is required".to_string()));
    config.password = "pw".to_string();
    assert_eq!(sync.validate_config(&config), Ok(()));
}

#[test]
fn test_sync_scheduler() {
    let mut scheduler = SyncScheduler::new();

    let task_id = scheduler.add_scheduled_task(SyncTaskType::S3, 60).unwrap();

    let task = scheduler.get_task(&task_id);
    assert!(task.is_some());
    assert_eq!(task.unwrap().task_type, SyncTaskType::S3);
}

#[test]
fn scheduled_tasks_are_listed_and_found_by_id() {
    let mut scheduler = SyncScheduler::new();
    let a = scheduler.add_scheduled_task(SyncTaskType::S3, 10).unwrap();
    let b = scheduler.add_scheduled_task(SyncTaskType::WebDAV, 20).unwrap();
    assert_ne!(a, b);
    let tasks = scheduler.get_tasks();
    assert_eq!(tasks.len(), 2);
    assert_eq!(scheduler.get_task(&b).unwrap().task_type, SyncTaskType::WebDAV);
    assert_eq!(scheduler.get_task(&b).unwrap().interval_minutes, Some(20));
    assert!(scheduler.get_task("no such task").is_none());
    assert!(!scheduler.is_running());
    assert!(scheduler.get_sync_history().is_empty());
}

#[test]
fn schedule_beyond_the_time_range_is_refused() {
    let mut scheduler = SyncScheduler::new();
    let r = scheduler.add_scheduled_task(SyncTaskType::S3, (i64::MAX as u64) / 60);
    assert_eq!(r.unwrap_err(), "Next run time is out of range");
    assert!(scheduler.get_tasks().is_empty());
}
