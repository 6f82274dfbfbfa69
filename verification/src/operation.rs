//! Data model of the operation ledger: planned mutations, durable records of
//! attempted mutations, their lifecycle status, and batch grouping.

use vstd::prelude::*;

verus! {

/// The kind of filesystem mutation an operation performs.
#[derive(Clone, Copy, Debug, PartialEq, Eq, Structural)]
pub enum OperationType {
    Move,
    Copy,
    Rename,
    Delete,
}

/// Lifecycle state of a durable operation record.
///
/// `Pending -> InProgress -> {Completed, Failed}`; `Completed -> Undone`.
/// `Failed` carries a human-readable cause and is terminal; `Undone` is terminal.
#[derive(Clone, Debug, PartialEq)]
pub enum OperationStatus {
    Pending,
    InProgress,
    Completed,
    Failed(String),
    Undone,
}

impl OperationStatus {
    /// Deep copy proved equal to the value it copies, usable from verified code.
    pub fn duplicate(&self) -> (r: Self)
        ensures
            r == *self,
    {
        match self {
            OperationStatus::Pending => OperationStatus::Pending,
            OperationStatus::InProgress => OperationStatus::InProgress,
            OperationStatus::Completed => OperationStatus::Completed,
            OperationStatus::Failed(m) => OperationStatus::Failed(m.clone()),
            OperationStatus::Undone => OperationStatus::Undone,
        }
    }

    /// True exactly on `Completed`, the only status the undo engine acts on.
    pub fn is_completed(&self) -> (r: bool)
        ensures
            r == (self is Completed),
    {
        match self {
            OperationStatus::Completed => true,
            _ => false,
        }
    }
}

/// A proposed mutation, not yet applied. Produced by external planning logic
/// and handed to the executor; immutable from then on.
#[derive(Clone, Debug, PartialEq)]
pub struct PlannedOperation {
    pub file_id: String,
    pub file_name: String,
    pub operation_type: OperationType,
    pub source: String,
    pub destination: String,
    pub category: Option<String>,
}

/// The durable record of one attempted mutation. Immutable once appended to
/// the store, except for `status`, which the undo engine may move to `Undone`.
#[derive(Clone, Debug, PartialEq)]
pub struct Operation {
    pub id: String,
    pub operation_type: OperationType,
    pub source_path: String,
    pub destination_path: Option<String>,
    pub original_name: Option<String>,
    pub new_name: Option<String>,
    pub timestamp: i64,
    pub status: OperationStatus,
    pub batch_id: Option<String>,
    pub backup_path: Option<String>,
}

/// The key that groups operations into batches: the shared `batch_id` when
/// present, otherwise the operation's own id, so every record belongs to
/// exactly one batch.
pub open spec fn batch_key(op: Operation) -> Seq<char> {
    match op.batch_id {
        Some(b) => b@,
        None => op.id@,
    }
}

/// The same record with only the status replaced.
pub open spec fn with_status(op: Operation, st: OperationStatus) -> Operation {
    Operation { status: st, ..op }
}

fn clone_opt_string(s: &Option<String>) -> (r: Option<String>)
    ensures
        r == *s,
{
    match s {
        Some(v) => Some(v.clone()),
        None => None,
    }
}

impl Operation {
    /// Deep copy proved equal to the value it copies, usable from verified code.
    pub fn duplicate(&self) -> (r: Self)
        ensures
            r == *self,
    {
        Operation {
            id: self.id.clone(),
            operation_type: self.operation_type,
            source_path: self.source_path.clone(),
            destination_path: clone_opt_string(&self.destination_path),
            original_name: clone_opt_string(&self.original_name),
            new_name: clone_opt_string(&self.new_name),
            timestamp: self.timestamp,
            status: self.status.duplicate(),
            batch_id: clone_opt_string(&self.batch_id),
            backup_path: clone_opt_string(&self.backup_path),
        }
    }
}

/// A read-time grouping of operations sharing a batch key, with `created_at`
/// taken from the first member's timestamp.
#[derive(Clone, Debug, PartialEq)]
pub struct OperationBatch {
    pub id: String,
    pub operations: Vec<Operation>,
    pub created_at: i64,
    pub description: String,
}

/// Failures of the operation log store itself.
#[derive(Clone, Copy, Debug, PartialEq, Eq, Structural)]
pub enum StoreError {
    /// The appended record's id is already present in the store.
    DuplicateId,
}

} // verus!
