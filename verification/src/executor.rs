//! The operation executor's decision logic: which filesystem step each
//! planned operation needs, and the durable record each attempt leaves
//! behind. The caller performs the filesystem steps themselves, one item at
//! a time in submission order, and hands each outcome back; everything that
//! decides or records is verified here.

use vstd::prelude::*;
use crate::ids::{fresh_id, now_seconds};
use crate::operation::{Operation, OperationStatus, OperationType, PlannedOperation};
use crate::store::{has_op_id, OperationStore};

verus! {

/// One filesystem step the caller must perform on the executor's behalf.
#[derive(Clone, Debug, PartialEq)]
pub enum FsAction {
    /// Atomically rename `from` to `to`: moves, renames, and the
    /// backup relocation that stands in for a destructive delete.
    Rename { from: String, to: String },
    /// Duplicate the bytes of `from` at `to`, leaving `from` intact.
    CopyFile { from: String, to: String },
    /// Remove the file at `path`.
    Remove { path: String },
}

/// The filesystem step a planned operation calls for. A delete is performed
/// as a relocation to the caller's backup path, so the file's bytes stay
/// recoverable.
pub open spec fn plan_spec(p: PlannedOperation, backup: String) -> FsAction {
    match p.operation_type {
        OperationType::Move => FsAction::Rename { from: p.source, to: p.destination },
        OperationType::Rename => FsAction::Rename { from: p.source, to: p.destination },
        OperationType::Copy => FsAction::CopyFile { from: p.source, to: p.destination },
        OperationType::Delete => FsAction::Rename { from: p.source, to: backup },
    }
}

/// Decide the filesystem step for one planned operation.
pub fn plan_operation(p: &PlannedOperation, backup: &String) -> (a: FsAction)
    ensures
        a == plan_spec(*p, *backup),
{
    match p.operation_type {
        OperationType::Move => FsAction::Rename { from: p.source.clone(), to: p.destination.clone() },
        OperationType::Rename => FsAction::Rename {
            from: p.source.clone(),
            to: p.destination.clone(),
        },
        OperationType::Copy => FsAction::CopyFile {
            from: p.source.clone(),
            to: p.destination.clone(),
        },
        OperationType::Delete => FsAction::Rename { from: p.source.clone(), to: backup.clone() },
    }
}

/// Where a delete relocates a file so it stays recoverable: the backup
/// directory, a unique token, and the file's own name, joined by `/` and `-`.
pub fn backup_destination(dir: &String, token: &String, name: &String) -> (r: String)
    ensures
        r@ == dir@ + "/"@ + token@ + "-"@ + name@,
{
    let mut r = dir.clone();
    r.append("/");
    r.append(token.as_str());
    r.append("-");
    r.append(name.as_str());
    r
}

/// The view of an optional outcome message: `None` when the filesystem call
/// succeeded, the error's text when it failed.
pub open spec fn opt_view(o: Option<String>) -> Option<Seq<char>> {
    match o {
        Some(m) => Some(m@),
        None => None,
    }
}

/// What the durable record of one attempt holds, given the planned
/// operation, the filesystem outcome, and the backup path used for a
/// delete. Everything except the freshly assigned id, batch id and
/// timestamp is fixed by these inputs.
pub open spec fn record_reflects(
    rec: Operation,
    p: PlannedOperation,
    outcome: Option<Seq<char>>,
    backup: Seq<char>,
) -> bool {
    &&& rec.operation_type == p.operation_type
    &&& rec.source_path@ == p.source@
    &&& match rec.destination_path {
        Some(d) => !(p.operation_type is Delete) && d@ == p.destination@,
        None => p.operation_type is Delete,
    }
    &&& (rec.original_name matches Some(n) && n@ == p.file_name@)
    &&& rec.new_name is None
    &&& match outcome {
        None => rec.status is Completed,
        Some(msg) => rec.status matches OperationStatus::Failed(m) && m@ == msg,
    }
    &&& match rec.backup_path {
        Some(bp) => p.operation_type is Delete && outcome is None && bp@ == backup,
        None => !(p.operation_type is Delete && outcome is None),
    }
}

/// Build the durable record of one attempt.
fn make_record(
    p: &PlannedOperation,
    outcome: &Option<String>,
    id: String,
    bid: String,
    ts: i64,
    backup: &String,
) -> (rec: Operation)
    ensures
        record_reflects(rec, *p, opt_view(*outcome), backup@),
        rec.id == id,
        rec.batch_id == Some(bid),
        rec.timestamp == ts,
{
    let destination_path = match p.operation_type {
        OperationType::Delete => None,
        _ => Some(p.destination.clone()),
    };
    let status = match outcome {
        None => OperationStatus::Completed,
        Some(m) => OperationStatus::Failed(m.clone()),
    };
    let backup_path = match (&p.operation_type, outcome) {
        (OperationType::Delete, None) => Some(backup.clone()),
        _ => None,
    };
    Operation {
        id,
        operation_type: p.operation_type,
        source_path: p.source.clone(),
        destination_path,
        original_name: Some(p.file_name.clone()),
        new_name: None,
        timestamp: ts,
        status,
        batch_id: Some(bid),
        backup_path,
    }
}

/// The store after appending each record in turn, silently keeping the
/// store unchanged for a record whose freshly drawn id already exists: a
/// persistence failure never disturbs the batch.
pub open spec fn append_all(s: Seq<Operation>, rs: Seq<Operation>) -> Seq<Operation>
    decreases rs.len(),
{
    if rs.len() == 0 {
        s
    } else {
        let s2 = if has_op_id(s, rs.first().id@) {
            s
        } else {
            s.push(rs.first())
        };
        append_all(s2, rs.drop_first())
    }
}

proof fn lemma_append_all_snoc(s: Seq<Operation>, rs: Seq<Operation>, r: Operation)
    ensures
        append_all(s, rs.push(r)) == if has_op_id(append_all(s, rs), r.id@) {
            append_all(s, rs)
        } else {
            append_all(s, rs).push(r)
        },
    decreases rs.len(),
{
    if rs.len() == 0 {
        assert(rs.push(r).first() == r);
        assert(rs.push(r).drop_first() =~= Seq::<Operation>::empty());
        assert(rs =~= Seq::<Operation>::empty());
        let s2 = if has_op_id(s, r.id@) {
            s
        } else {
            s.push(r)
        };
        assert(append_all(s2, Seq::<Operation>::empty()) == s2);
    } else {
        assert(rs.push(r).first() == rs.first());
        assert(rs.push(r).drop_first() =~= rs.drop_first().push(r));
        let s2 = if has_op_id(s, rs.first().id@) {
            s
        } else {
            s.push(rs.first())
        };
        lemma_append_all_snoc(s2, rs.drop_first(), r);
    }
}

/// Record a batch of attempted operations: one durable record per planned
/// item, in submission order, under one freshly generated batch id. A
/// successful outcome yields `Completed`; a failed one yields `Failed` with
/// its non-empty message; each record is appended to the store, and a store
/// refusal for one record leaves the returned batch untouched.
pub fn execute_operations(
    store: &mut OperationStore,
    planned: &Vec<PlannedOperation>,
    outcomes: &Vec<Option<String>>,
    backups: &Vec<String>,
) -> (results: Vec<Operation>)
    requires
        outcomes@.len() == planned@.len(),
        backups@.len() == planned@.len(),
        forall|i: int|
            0 <= i < outcomes@.len() ==> ((#[trigger] outcomes@[i]) matches Some(m) ==> m@.len()
                > 0),
        old(store).wf(),
    ensures
        final(store).wf(),
        results@.len() == planned@.len(),
        forall|i: int|
            0 <= i < results@.len() ==> record_reflects(
                #[trigger] results@[i],
                planned@[i],
                opt_view(outcomes@[i]),
                backups@[i]@,
            ),
        forall|i: int|
            0 <= i < results@.len() ==> ((#[trigger] results@[i]).status matches
                OperationStatus::Failed(m) ==> m@.len() > 0),
        forall|i: int| 0 <= i < results@.len() ==> (#[trigger] results@[i]).id@.len() == 36,
        forall|i: int|
            0 <= i < results@.len() ==> ((#[trigger] results@[i]).batch_id matches Some(b)
                && b@.len() == 36),
        forall|i: int, j: int|
            0 <= i < results@.len() && 0 <= j < results@.len() ==> (#[trigger] results@[i]).batch_id
                == (#[trigger] results@[j]).batch_id,
        final(store)@ == append_all(old(store)@, results@),
{
    let ghost orig = store@;
    let bid = fresh_id();
    let mut results: Vec<Operation> = Vec::new();
    let n = planned.len();
    let mut i: usize = 0;
    while i < n
        invariant
            i <= n,
            n == planned@.len(),
            outcomes@.len() == n,
            backups@.len() == n,
            forall|k: int|
                0 <= k < outcomes@.len() ==> ((#[trigger] outcomes@[k]) matches Some(m)
                    ==> m@.len() > 0),
            store.wf(),
            bid@.len() == 36,
            results@.len() == i,
            forall|k: int|
                0 <= k < i ==> record_reflects(
                    #[trigger] results@[k],
                    planned@[k],
                    opt_view(outcomes@[k]),
                    backups@[k]@,
                ),
            forall|k: int| 0 <= k < i ==> (#[trigger] results@[k]).id@.len() == 36,
            forall|k: int| 0 <= k < i ==> (#[trigger] results@[k]).batch_id == Some(bid),
            store@ == append_all(orig, results@),
        decreases n - i,
    {
        let id = fresh_id();
        let ts = now_seconds();
        let rec = make_record(&planned[i], &outcomes[i], id, bid.clone(), ts, &backups[i]);
        let ghost results_old = results@;
        let _ = store.append(rec.duplicate());
        results.push(rec);
        proof {
            lemma_append_all_snoc(orig, results_old, results@.last());
        }
        i += 1;
    }
    results
}

} // verus!
