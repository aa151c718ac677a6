//! The shared-memory subsystem's verified slice: its configuration
//! value and the task-status vocabulary. The store itself lives
//! behind a database and is the embedding program's concern.

use vstd::prelude::*;

verus! {

use crate::bytes::str_eq;

/// Configuration of the shared-memory store.
#[derive(Clone, Debug)]
pub struct SharedMemoryConfig {
    /// Path of the store's database file.
    pub database_path: String,
    /// Path of the vector-search extension, when one is configured.
    pub vss_extension_path: Option<String>,
    /// Embedding dimension.
    pub embedding_dim: usize,
}

impl Default for SharedMemoryConfig {
    fn default() -> (r: Self)
        ensures
            r.database_path@ == "/data/claw-pen/shared/memory.db"@,
            r.vss_extension_path is None,
            r.embedding_dim == 1536,
    {
        SharedMemoryConfig {
            database_path: "/data/claw-pen/shared/memory.db".to_owned(),
            vss_extension_path: None,
            embedding_dim: 1536,
        }
    }
}

/// State of one task in the shared queue.
#[derive(Clone, Copy, Debug, PartialEq, Eq, Structural)]
pub enum TaskStatus {
    Pending,
    Claimed,
    InProgress,
    Completed,
    Failed,
    Cancelled,
}

impl TaskStatus {
    /// The stored text of a task status.
    pub fn as_str(&self) -> (r: &'static str)
        ensures
            self is Pending ==> r@ == "pending"@,
            self is Claimed ==> r@ == "claimed"@,
            self is InProgress ==> r@ == "in_progress"@,
            self is Completed ==> r@ == "completed"@,
            self is Failed ==> r@ == "failed"@,
            self is Cancelled ==> r@ == "cancelled"@,
    {
        match self {
            TaskStatus::Pending => "pending",
            TaskStatus::Claimed => "claimed",
            TaskStatus::InProgress => "in_progress",
            TaskStatus::Completed => "completed",
            TaskStatus::Failed => "failed",
            TaskStatus::Cancelled => "cancelled",
        }
    }
}

/// The task status a stored text stands for; unknown text is
/// rejected, never guessed.
pub fn parse_task_status(s: &str) -> (r: Option<TaskStatus>)
    ensures
        s@ == "pending"@ ==> r == Some(TaskStatus::Pending),
        s@ == "claimed"@ ==> r == Some(TaskStatus::Claimed),
        s@ == "in_progress"@ ==> r == Some(TaskStatus::InProgress),
        s@ == "completed"@ ==> r == Some(TaskStatus::Completed),
        s@ == "failed"@ ==> r == Some(TaskStatus::Failed),
        s@ == "cancelled"@ ==> r == Some(TaskStatus::Cancelled),
{
    proof {
        reveal_strlit("pending");
        reveal_strlit("claimed");
        reveal_strlit("in_progress");
        reveal_strlit("completed");
        reveal_strlit("failed");
        reveal_strlit("cancelled");
        assert("pending"@[0] == 'p' && "claimed"@[0] == 'c' && "in_progress"@[0] == 'i'
            && "completed"@[0] == 'c' && "failed"@[0] == 'f' && "cancelled"@[0] == 'c');
        assert("claimed"@[1] == 'l' && "completed"@[1] == 'o' && "cancelled"@[1] == 'a');
    }
    if str_eq(s, "pending") {
        Some(TaskStatus::Pending)
    } else if str_eq(s, "claimed") {
        Some(TaskStatus::Claimed)
    } else if str_eq(s, "in_progress") {
        Some(TaskStatus::InProgress)
    } else if str_eq(s, "completed") {
        Some(TaskStatus::Completed)
    } else if str_eq(s, "failed") {
        Some(TaskStatus::Failed)
    } else if str_eq(s, "cancelled") {
        Some(TaskStatus::Cancelled)
    } else {
        None
    }
}

} // verus!
