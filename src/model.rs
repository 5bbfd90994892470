//! The batch-task records and the flat row in which the store keeps one task:
//! its scalar fields as they are, and its configuration, items and results as
//! three JSON texts that the store never looks inside.

use vstd::prelude::*;

verus! {

/// The JSON value that a debug log carries as its payload; it is passed
/// through untouched.
#[verifier::external_type_specification]
#[verifier::external_body]
pub struct ExJsonValue(serde_json::Value);

/// The generation parameters of a batch, fixed when it is submitted.
#[derive(Clone, Debug)]
pub struct BatchTaskConfig {
    pub model: String,
    pub model_type: String,
    pub concurrent_limit: i32,
    pub retry_attempts: i32,
    pub retry_delay: i32,
    pub auto_download: bool,
    pub aspect_ratio: String,
    pub size: String,
    pub quality: String,
    pub generate_count: Option<i32>,
    pub api_timeout_ms: Option<i32>,
}

/// One generation request of a batch.
#[derive(Debug)]
pub struct TaskItem {
    pub id: String,
    pub prompt: String,
    pub source_image: Option<String>,
    pub mask: Option<String>,
    pub priority: i32,
    pub status: String,
    pub attempt_count: i32,
    pub created_at: String,
    pub processed_at: Option<String>,
    pub error: Option<String>,
    pub debug_logs: Option<Vec<DebugLog>>,
}

/// One artifact that a batch produced.
#[derive(Clone, Debug)]
pub struct TaskResult {
    pub id: String,
    pub task_item_id: String,
    pub image_url: String,
    pub local_path: Option<String>,
    pub downloaded: bool,
    pub created_at: String,
    pub duration_ms: Option<i32>,
}

/// A diagnostic entry attached to a task item.
#[derive(Debug)]
pub struct DebugLog {
    pub id: String,
    pub task_item_id: String,
    pub timestamp: String,
    pub kind: String,
    pub data: serde_json::Value,
    pub duration: Option<i32>,
}

/// A run of related generation work.
#[derive(Debug)]
pub struct BatchTask {
    pub id: String,
    pub name: String,
    pub kind: String,
    pub status: String,
    pub progress: i32,
    pub total_items: i32,
    pub completed_items: i32,
    pub failed_items: i32,
    pub created_at: String,
    pub started_at: Option<String>,
    pub completed_at: Option<String>,
    pub config: BatchTaskConfig,
    pub items: Vec<TaskItem>,
    pub results: Vec<TaskResult>,
    pub error: Option<String>,
}

/// One stored task: the scalar fields of a `BatchTask`, and its configuration,
/// items and results as JSON texts.
#[derive(Clone, Debug)]
pub struct TaskRow {
    pub id: String,
    pub name: String,
    pub kind: String,
    pub status: String,
    pub progress: i32,
    pub total_items: i32,
    pub completed_items: i32,
    pub failed_items: i32,
    pub created_at: String,
    pub started_at: Option<String>,
    pub completed_at: Option<String>,
    pub config_json: String,
    pub items_json: String,
    pub results_json: String,
    pub error: Option<String>,
}

/// A copy of an optional text.
pub fn copy_text(o: &Option<String>) -> (r: Option<String>)
    ensures
        r == *o,
{
    match o {
        Some(s) => Some(s.clone()),
        None => None,
    }
}

/// The scalar fields of a task and of a row agree.
pub open spec fn same_scalars(t: BatchTask, r: TaskRow) -> bool {
    &&& t.id == r.id
    &&& t.name == r.name
    &&& t.kind == r.kind
    &&& t.status == r.status
    &&& t.progress == r.progress
    &&& t.total_items == r.total_items
    &&& t.completed_items == r.completed_items
    &&& t.failed_items == r.failed_items
    &&& t.created_at == r.created_at
    &&& t.started_at == r.started_at
    &&& t.completed_at == r.completed_at
    &&& t.error == r.error
}

impl BatchTask {
    /// The counters are consistent: none is negative, progress is a
    /// percentage, and completed and failed items together do not exceed
    /// the total.
    pub open spec fn counters_consistent(&self) -> bool {
        &&& 0 <= self.progress <= 100
        &&& 0 <= self.completed_items
        &&& 0 <= self.failed_items
        &&& self.completed_items + self.failed_items <= self.total_items
    }

    /// Whether the counters are consistent.
    pub fn has_consistent_counters(&self) -> (r: bool)
        ensures
            r == self.counters_consistent(),
    {
        0 <= self.progress && self.progress <= 100 && 0 <= self.completed_items && 0
            <= self.failed_items && (self.completed_items as i64) + (self.failed_items as i64)
            <= self.total_items as i64
    }

    /// Rebuilds a task from a stored row and its decoded nested parts.
    pub fn from_row(
        row: TaskRow,
        config: BatchTaskConfig,
        items: Vec<TaskItem>,
        results: Vec<TaskResult>,
    ) -> (r: BatchTask)
        ensures
            same_scalars(r, row),
            r.config == config,
            r.items == items,
            r.results == results,
    {
        BatchTask {
            id: row.id,
            name: row.name,
            kind: row.kind,
            status: row.status,
            progress: row.progress,
            total_items: row.total_items,
            completed_items: row.completed_items,
            failed_items: row.failed_items,
            created_at: row.created_at,
            started_at: row.started_at,
            completed_at: row.completed_at,
            config,
            items,
            results,
            error: row.error,
        }
    }
}

impl TaskRow {
    /// The row that stores `task`, with its nested parts already encoded.
    pub fn from_task(
        task: &BatchTask,
        config_json: String,
        items_json: String,
        results_json: String,
    ) -> (r: TaskRow)
        ensures
            same_scalars(*task, r),
            r.config_json == config_json,
            r.items_json == items_json,
            r.results_json == results_json,
    {
        TaskRow {
            id: task.id.clone(),
            name: task.name.clone(),
            kind: task.kind.clone(),
            status: task.status.clone(),
            progress: task.progress,
            total_items: task.total_items,
            completed_items: task.completed_items,
            failed_items: task.failed_items,
            created_at: task.created_at.clone(),
            started_at: copy_text(&task.started_at),
            completed_at: copy_text(&task.completed_at),
            config_json,
            items_json,
            results_json,
            error: copy_text(&task.error),
        }
    }

    /// An identical copy of this row.
    pub fn duplicate(&self) -> (r: TaskRow)
        ensures
            r == *self,
    {
        TaskRow {
            id: self.id.clone(),
            name: self.name.clone(),
            kind: self.kind.clone(),
            status: self.status.clone(),
            progress: self.progress,
            total_items: self.total_items,
            completed_items: self.completed_items,
            failed_items: self.failed_items,
            created_at: self.created_at.clone(),
            started_at: copy_text(&self.started_at),
            completed_at: copy_text(&self.completed_at),
            config_json: self.config_json.clone(),
            items_json: self.items_json.clone(),
            results_json: self.results_json.clone(),
            error: copy_text(&self.error),
        }
    }
}

/// Storing a task and rebuilding it from the stored row, with the nested
/// parts decoded back to what was encoded, gives back every field.
pub proof fn lemma_row_round_trip(
    task: BatchTask,
    config_json: String,
    items_json: String,
    results_json: String,
    row: TaskRow,
    back: BatchTask,
)
    requires
        same_scalars(task, row),
        row.config_json == config_json,
        row.items_json == items_json,
        row.results_json == results_json,
        same_scalars(back, row),
        back.config == task.config,
        back.items == task.items,
        back.results == task.results,
    ensures
        back == task,
{
}

} // verus!
