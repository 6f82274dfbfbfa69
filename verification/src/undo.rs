//! The undo engine's decision logic: which filesystem step reverses a
//! completed record, and how the store changes once the caller reports
//! which reversals succeeded. Skipped or failed reversals stay `Completed`
//! so a later call can retry them; successful ones are marked `Undone` and
//! returned.

use vstd::prelude::*;
use crate::executor::{plan_spec, record_reflects, FsAction};
use crate::operation::{Operation, OperationStatus, OperationType, PlannedOperation};
use crate::store::{completed_of, lemma_completed_of_props, mark_undone_spec, OperationStore};

verus! {

/// The filesystem step that reverses a completed record, when one exists:
/// a move or rename goes back from destination to source; a copy deletes
/// the copy; a delete restores the recorded backup. A record without the
/// needed path has no reversal and is skipped.
pub open spec fn undo_action_spec(op: Operation) -> Option<FsAction> {
    match op.operation_type {
        OperationType::Move => match op.destination_path {
            Some(d) => Some(FsAction::Rename { from: d, to: op.source_path }),
            None => None,
        },
        OperationType::Rename => match op.destination_path {
            Some(d) => Some(FsAction::Rename { from: d, to: op.source_path }),
            None => None,
        },
        OperationType::Copy => match op.destination_path {
            Some(d) => Some(FsAction::Remove { path: d }),
            None => None,
        },
        OperationType::Delete => match op.backup_path {
            Some(b) => Some(FsAction::Rename { from: b, to: op.source_path }),
            None => None,
        },
    }
}

/// Decide the filesystem step that reverses one record.
pub fn plan_undo(op: &Operation) -> (a: Option<FsAction>)
    ensures
        a == undo_action_spec(*op),
{
    match op.operation_type {
        OperationType::Move | OperationType::Rename => match &op.destination_path {
            Some(d) => Some(FsAction::Rename { from: d.clone(), to: op.source_path.clone() }),
            None => None,
        },
        OperationType::Copy => match &op.destination_path {
            Some(d) => Some(FsAction::Remove { path: d.clone() }),
            None => None,
        },
        OperationType::Delete => match &op.backup_path {
            Some(b) => Some(FsAction::Rename { from: b.clone(), to: op.source_path.clone() }),
            None => None,
        },
    }
}

/// The candidates whose reversal succeeded, in candidate order.
pub open spec fn selected(cands: Seq<Operation>, ok: Seq<bool>) -> Seq<Operation>
    decreases cands.len(),
{
    if cands.len() == 0 || ok.len() == 0 {
        Seq::empty()
    } else if ok.last() {
        selected(cands.drop_last(), ok.drop_last()).push(cands.last())
    } else {
        selected(cands.drop_last(), ok.drop_last())
    }
}

/// The store after marking every successfully reversed candidate `Undone`,
/// in candidate order.
pub open spec fn mark_selected(s: Seq<Operation>, cands: Seq<Operation>, ok: Seq<bool>) -> Seq<
    Operation,
>
    decreases cands.len(),
{
    if cands.len() == 0 || ok.len() == 0 {
        s
    } else {
        let s2 = mark_selected(s, cands.drop_last(), ok.drop_last());
        if ok.last() {
            mark_undone_spec(s2, cands.last().id@)
        } else {
            s2
        }
    }
}

/// Apply the caller's reversal outcomes: each candidate whose filesystem
/// reversal succeeded is marked `Undone` in the store and included in the
/// returned list; the rest are left `Completed` for a later retry and
/// omitted. The returned list may therefore be shorter than the candidate
/// list, and keeps candidate order.
pub fn undo_operations(
    store: &mut OperationStore,
    candidates: &Vec<Operation>,
    succeeded: &Vec<bool>,
) -> (undone: Vec<Operation>)
    requires
        succeeded@.len() == candidates@.len(),
        forall|i: int|
            0 <= i < candidates@.len() && succeeded@[i] ==> undo_action_spec(
                #[trigger] candidates@[i],
            ) is Some,
    ensures
        final(store)@ == mark_selected(old(store)@, candidates@, succeeded@),
        undone@ == selected(candidates@, succeeded@),
        old(store).wf() ==> final(store).wf(),
{
    let ghost orig = store@;
    let mut undone: Vec<Operation> = Vec::new();
    let n = candidates.len();
    let mut i: usize = 0;
    while i < n
        invariant
            i <= n,
            n == candidates@.len(),
            succeeded@.len() == n,
            store@ == mark_selected(orig, candidates@.take(i as int), succeeded@.take(i as int)),
            undone@ == selected(candidates@.take(i as int), succeeded@.take(i as int)),
            old(store).wf() ==> store.wf(),
        decreases n - i,
    {
        proof {
            assert(candidates@.take(i + 1).drop_last() =~= candidates@.take(i as int));
            assert(succeeded@.take(i + 1).drop_last() =~= succeeded@.take(i as int));
            assert(candidates@.take(i + 1).last() == candidates@[i as int]);
            assert(succeeded@.take(i + 1).last() == succeeded@[i as int]);
        }
        if succeeded[i] {
            store.mark_undone(&candidates[i].id);
            undone.push(candidates[i].duplicate());
        }
        i += 1;
    }
    proof {
        assert(candidates@.take(n as int) =~= candidates@);
        assert(succeeded@.take(n as int) =~= succeeded@);
    }
    undone
}

/// Marking a record `Undone` is idempotent: marking the same id twice
/// leaves exactly the store that marking it once leaves.
pub proof fn lemma_mark_undone_idempotent(s: Seq<Operation>, id: Seq<char>)
    ensures
        mark_undone_spec(mark_undone_spec(s, id), id) == mark_undone_spec(s, id),
{
    assert(mark_undone_spec(mark_undone_spec(s, id), id) =~= mark_undone_spec(s, id));
}

/// Once a record is marked `Undone`, the undo candidate pool (the
/// `Completed` records) no longer offers it: a second undo pass cannot act
/// on it again.
pub proof fn lemma_undone_leaves_pool(s: Seq<Operation>, id: Seq<char>)
    ensures
        forall|i: int|
            0 <= i < completed_of(mark_undone_spec(s, id)).len() ==> (#[trigger] completed_of(
                mark_undone_spec(s, id),
            )[i]).id@ != id,
{
    let marked = mark_undone_spec(s, id);
    lemma_completed_of_props(marked);
    assert forall|i: int|
        0 <= i < completed_of(marked).len() implies (#[trigger] completed_of(marked)[i]).id@
        != id by {
        let el = completed_of(marked)[i];
        assert(marked.contains(el));
        let j = choose|j: int| 0 <= j < marked.len() && marked[j] == el;
        assert(marked[j] == if s[j].id@ == id {
            crate::operation::with_status(s[j], OperationStatus::Undone)
        } else {
            s[j]
        });
    }
}

/// The model filesystem the round-trip laws speak of: a map from paths to
/// file contents, with the intended meaning of each filesystem step. A
/// rename moves a present file's contents to the target path, a copy
/// duplicates them, a removal drops the path; a step whose source is
/// absent changes nothing.
pub open spec fn fs_apply(fs: Map<Seq<char>, Seq<u8>>, a: FsAction) -> Map<Seq<char>, Seq<u8>> {
    match a {
        FsAction::Rename { from, to } => if fs.contains_key(from@) {
            fs.remove(from@).insert(to@, fs[from@])
        } else {
            fs
        },
        FsAction::CopyFile { from, to } => if fs.contains_key(from@) {
            fs.insert(to@, fs[from@])
        } else {
            fs
        },
        FsAction::Remove { path } => fs.remove(path@),
    }
}

/// Round trip for a move or rename: executing the planned step on a
/// filesystem that holds the source and not the destination, then the undo
/// step of its completed record, restores the filesystem exactly — the
/// source is back and the destination is absent again.
pub proof fn lemma_move_round_trip(
    p: PlannedOperation,
    backup: String,
    rec: Operation,
    fs: Map<Seq<char>, Seq<u8>>,
)
    requires
        p.operation_type is Move || p.operation_type is Rename,
        record_reflects(rec, p, None, backup@),
        fs.contains_key(p.source@),
        !fs.contains_key(p.destination@),
        p.source@ != p.destination@,
    ensures
        undo_action_spec(rec) is Some,
        fs_apply(fs_apply(fs, plan_spec(p, backup)), undo_action_spec(rec)->Some_0) == fs,
{
    let mid = fs_apply(fs, plan_spec(p, backup));
    assert(mid == fs.remove(p.source@).insert(p.destination@, fs[p.source@]));
    let back = fs_apply(mid, undo_action_spec(rec)->Some_0);
    assert(mid.contains_key(p.destination@));
    assert(back =~= fs);
}

/// Round trip for a copy: executing the planned step on a filesystem that
/// holds the source and not the destination, then the undo step of its
/// completed record, removes the copy while the source file is unchanged.
pub proof fn lemma_copy_round_trip(
    p: PlannedOperation,
    backup: String,
    rec: Operation,
    fs: Map<Seq<char>, Seq<u8>>,
)
    requires
        p.operation_type is Copy,
        record_reflects(rec, p, None, backup@),
        fs.contains_key(p.source@),
        !fs.contains_key(p.destination@),
        p.source@ != p.destination@,
    ensures
        undo_action_spec(rec) is Some,
        fs_apply(fs_apply(fs, plan_spec(p, backup)), undo_action_spec(rec)->Some_0) == fs,
        fs_apply(fs_apply(fs, plan_spec(p, backup)), undo_action_spec(rec)->Some_0)[p.source@]
            == fs[p.source@],
{
    let mid = fs_apply(fs, plan_spec(p, backup));
    assert(mid == fs.insert(p.destination@, fs[p.source@]));
    let back = fs_apply(mid, undo_action_spec(rec)->Some_0);
    assert(back =~= fs);
}

/// Round trip for a delete: the delete relocates the file to its backup
/// path, and the undo step of its completed record restores it from there,
/// leaving the filesystem exactly as it was.
pub proof fn lemma_delete_round_trip(
    p: PlannedOperation,
    backup: String,
    rec: Operation,
    fs: Map<Seq<char>, Seq<u8>>,
)
    requires
        p.operation_type is Delete,
        record_reflects(rec, p, None, backup@),
        fs.contains_key(p.source@),
        !fs.contains_key(backup@),
        p.source@ != backup@,
    ensures
        undo_action_spec(rec) is Some,
        fs_apply(fs_apply(fs, plan_spec(p, backup)), undo_action_spec(rec)->Some_0) == fs,
{
    let mid = fs_apply(fs, plan_spec(p, backup));
    assert(mid == fs.remove(p.source@).insert(backup@, fs[p.source@]));
    let back = fs_apply(mid, undo_action_spec(rec)->Some_0);
    assert(mid.contains_key(backup@));
    assert(back =~= fs);
}

} // verus!
