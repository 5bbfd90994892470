use batch_tasks::model::{BatchTask, BatchTaskConfig, TaskItem, TaskResult, TaskRow};
use batch_tasks::store::{keep_limit, SimpleDatabase, DEFAULT_KEEP};

fn row(id: &str, created_at: &str) -> TaskRow {
    TaskRow {
        id: id.to_string(),
        name: format!("batch {}", id),
        kind: "image".to_string(),
        status: "pending".to_string(),
        progress: 0,
        total_items: 2,
        completed_items: 0,
        failed_items: 0,
        created_at: created_at.to_string(),
        started_at: None,
        completed_at: None,
        config_json: "{\"model\":\"m\"}".to_string(),
        items_json: "[{\"id\":\"i1\",\"debugLogs\":[{\"id\":\"l1\"}]}]".to_string(),
        results_json: "[]".to_string(),
        error: None,
    }
}

fn ids(rows: &[TaskRow]) -> Vec<String> {
    rows.iter().map(|r| r.id.clone()).collect()
}

#[test]
fn empty_store_counts_zero() {
    let db = SimpleDatabase::init_db();
    assert_eq!(db.get_task_count(), 0);
    assert!(db.get_all_batch_tasks().is_empty());
}

#[test]
fn save_twice_keeps_one_row() {
    let mut db = SimpleDatabase::init_db();
    db.save_batch_task(row("a", "2024-01-01T00:00:00Z"));
    let after_first = db.get_task_count();
    db.save_batch_task(row("a", "2024-01-01T00:00:00Z"));
    assert_eq!(db.get_task_count(), after_first);
    let all = db.get_all_batch_tasks();
    assert_eq!(ids(&all), vec!["a".to_string()]);
}

#[test]
fn save_replaces_whole_row() {
    let mut db = SimpleDatabase::init_db();
    db.save_batch_task(row("a", "2024-01-01T00:00:00Z"));
    let mut changed = row("a", "2024-01-01T00:00:00Z");
    changed.status = "running".to_string();
    changed.progress = 50;
    changed.results_json = "[{\"id\":\"r1\"}]".to_string();
    db.save_batch_task(changed);
    let all = db.get_all_batch_tasks();
    assert_eq!(all.len(), 1);
    assert_eq!(all[0].status, "running");
    assert_eq!(all[0].progress, 50);
    assert_eq!(all[0].results_json, "[{\"id\":\"r1\"}]");
}

#[test]
fn listing_is_newest_first() {
    let mut db = SimpleDatabase::init_db();
    db.save_batch_task(row("b", "2024-01-02T00:00:00Z"));
    db.save_batch_task(row("c", "2024-01-03T00:00:00Z"));
    db.save_batch_task(row("a", "2024-01-01T00:00:00Z"));
    let all = db.get_all_batch_tasks();
    assert_eq!(ids(&all), vec!["c".to_string(), "b".to_string(), "a".to_string()]);
}

#[test]
fn saved_row_round_trips_exactly() {
    let mut db = SimpleDatabase::init_db();
    let mut r = row("x", "2024-05-05T10:00:00Z");
    r.started_at = Some("2024-05-05T10:01:00Z".to_string());
    r.error = Some("quota".to_string());
    db.save_batch_task(r.clone());
    let all = db.get_all_batch_tasks();
    assert_eq!(all.len(), 1);
    let got = &all[0];
    assert_eq!(got.id, r.id);
    assert_eq!(got.name, r.name);
    assert_eq!(got.created_at, r.created_at);
    assert_eq!(got.started_at, r.started_at);
    assert_eq!(got.completed_at, r.completed_at);
    assert_eq!(got.config_json, r.config_json);
    assert_eq!(got.items_json, r.items_json);
    assert_eq!(got.results_json, r.results_json);
    assert_eq!(got.error, r.error);
}

#[test]
fn delete_missing_id_changes_nothing() {
    let mut db = SimpleDatabase::init_db();
    db.save_batch_task(row("a", "2024-01-01T00:00:00Z"));
    db.save_batch_task(row("b", "2024-01-02T00:00:00Z"));
    db.delete_batch_task("zzz");
    assert_eq!(db.get_task_count(), 2);
    assert_eq!(ids(&db.get_all_batch_tasks()), vec!["b".to_string(), "a".to_string()]);
}

#[test]
fn delete_removes_the_row() {
    let mut db = SimpleDatabase::init_db();
    db.save_batch_task(row("a", "2024-01-01T00:00:00Z"));
    db.save_batch_task(row("b", "2024-01-02T00:00:00Z"));
    db.delete_batch_task("a");
    assert_eq!(ids(&db.get_all_batch_tasks()), vec!["b".to_string()]);
}

#[test]
fn clear_empties_the_store() {
    let mut db = SimpleDatabase::init_db();
    db.save_batch_task(row("a", "2024-01-01T00:00:00Z"));
    db.save_batch_task(row("b", "2024-01-02T00:00:00Z"));
    db.clear_batch_tasks();
    assert_eq!(db.get_task_count(), 0);
}

fn five_tasks() -> SimpleDatabase {
    let mut db = SimpleDatabase::init_db();
    db.save_batch_task(row("t3", "2024-01-03T00:00:00Z"));
    db.save_batch_task(row("t1", "2024-01-01T00:00:00Z"));
    db.save_batch_task(row("t5", "2024-01-05T00:00:00Z"));
    db.save_batch_task(row("t2", "2024-01-02T00:00:00Z"));
    db.save_batch_task(row("t4", "2024-01-04T00:00:00Z"));
    db
}

#[test]
fn cleanup_keeps_two_newest_of_five() {
    let mut db = five_tasks();
    let removed = db.cleanup_old_tasks(2);
    assert_eq!(removed.len(), 3);
    let mut gone = removed.clone();
    gone.sort();
    assert_eq!(gone, vec!["t1".to_string(), "t2".to_string(), "t3".to_string()]);
    assert_eq!(ids(&db.get_all_batch_tasks()), vec!["t5".to_string(), "t4".to_string()]);
}

#[test]
fn cleanup_zero_purges_everything() {
    let mut db = five_tasks();
    assert_eq!(db.cleanup_old_tasks(0).len(), 5);
    assert_eq!(db.get_task_count(), 0);
}

#[test]
fn cleanup_negative_purges_everything() {
    let mut db = five_tasks();
    assert_eq!(db.cleanup_old_tasks(-3).len(), 5);
    assert_eq!(db.get_task_count(), 0);
}

#[test]
fn cleanup_above_count_is_a_no_op() {
    let mut db = five_tasks();
    assert_eq!(db.cleanup_old_tasks(5).len(), 0);
    assert_eq!(db.cleanup_old_tasks(100).len(), 0);
    assert_eq!(db.get_task_count(), 5);
}

#[test]
fn keep_limit_defaults_to_one_hundred() {
    assert_eq!(keep_limit(None), 100);
    assert_eq!(DEFAULT_KEEP, 100);
    assert_eq!(keep_limit(Some(7)), 7);
    assert_eq!(keep_limit(Some(0)), 0);
}

#[test]
fn from_rows_refuses_duplicate_ids() {
    let rows = vec![row("a", "1"), row("b", "2"), row("a", "3")];
    assert!(SimpleDatabase::from_rows(rows).is_none());
    let rows = vec![row("a", "1"), row("b", "2")];
    let db = SimpleDatabase::from_rows(rows).unwrap();
    assert_eq!(db.get_task_count(), 2);
}

fn config() -> BatchTaskConfig {
    BatchTaskConfig {
        model: "m".to_string(),
        model_type: "image".to_string(),
        concurrent_limit: 2,
        retry_attempts: 3,
        retry_delay: 1000,
        auto_download: true,
        aspect_ratio: "1:1".to_string(),
        size: "1024x1024".to_string(),
        quality: "high".to_string(),
        generate_count: Some(1),
        api_timeout_ms: None,
    }
}

#[test]
fn task_and_row_carry_the_same_scalars() {
    let task = BatchTask {
        id: "t".to_string(),
        name: "n".to_string(),
        kind: "image".to_string(),
        status: "completed".to_string(),
        progress: 100,
        total_items: 1,
        completed_items: 1,
        failed_items: 0,
        created_at: "2024-01-01".to_string(),
        started_at: Some("2024-01-01".to_string()),
        completed_at: Some("2024-01-02".to_string()),
        config: config(),
        items: vec![TaskItem {
            id: "i".to_string(),
            prompt: "p".to_string(),
            source_image: None,
            mask: None,
            priority: 0,
            status: "done".to_string(),
            attempt_count: 1,
            created_at: "2024-01-01".to_string(),
            processed_at: None,
            error: None,
            debug_logs: None,
        }],
        results: vec![TaskResult {
            id: "r".to_string(),
            task_item_id: "i".to_string(),
            image_url: "http://x/y.png".to_string(),
            local_path: None,
            downloaded: false,
            created_at: "2024-01-02".to_string(),
            duration_ms: Some(5),
        }],
        error: None,
    };
    assert!(task.has_consistent_counters());
    let r = TaskRow::from_task(&task, "{}".to_string(), "[]".to_string(), "[1]".to_string());
    assert_eq!(r.id, "t");
    assert_eq!(r.completed_at, Some("2024-01-02".to_string()));
    assert_eq!(r.results_json, "[1]");
    let back = BatchTask::from_row(r, config(), Vec::new(), Vec::new());
    assert_eq!(back.status, "completed");
    assert_eq!(back.progress, 100);
    assert_eq!(back.config.size, "1024x1024");
}
