//! The operation log store: a queryable in-memory ledger of operation
//! records with unique ids. Callers that need durability mirror every
//! mutation to a backing medium of their choice; the ledger's contracts
//! describe ordering, filtering, grouping and status transitions exactly.

use vstd::prelude::*;
use vstd::multiset::Multiset;
use crate::operation::{batch_key, with_status, Operation, OperationBatch, OperationStatus, StoreError};

verus! {

broadcast use vstd::seq_lib::group_to_multiset_ensures;

/// True when `s` holds a record with the given id.
pub open spec fn has_op_id(s: Seq<Operation>, id: Seq<char>) -> bool {
    exists|i: int| 0 <= i < s.len() && s[i].id@ == id
}

/// No two records share an id.
pub open spec fn unique_ids(s: Seq<Operation>) -> bool {
    forall|i: int, j: int| 0 <= i < j < s.len() ==> s[i].id@ != s[j].id@
}

/// Timestamps are non-increasing: most recent first.
pub open spec fn sorted_desc(s: Seq<Operation>) -> bool {
    forall|i: int, j: int| 0 <= i < j < s.len() ==> s[i].timestamp >= s[j].timestamp
}

/// The records with status `Completed`, in store order.
pub open spec fn completed_of(s: Seq<Operation>) -> Seq<Operation>
    decreases s.len(),
{
    if s.len() == 0 {
        Seq::empty()
    } else if s.last().status is Completed {
        completed_of(s.drop_last()).push(s.last())
    } else {
        completed_of(s.drop_last())
    }
}

/// Everything `completed_of` keeps is a `Completed` record of the source.
pub proof fn lemma_completed_of_props(s: Seq<Operation>)
    ensures
        forall|i: int|
            0 <= i < completed_of(s).len() ==> (#[trigger] completed_of(s)[i]).status is Completed,
        forall|i: int| 0 <= i < completed_of(s).len() ==> s.contains(#[trigger] completed_of(s)[i]),
        completed_of(s).len() <= s.len(),
    decreases s.len(),
{
    if s.len() > 0 {
        lemma_completed_of_props(s.drop_last());
        assert forall|i: int|
            0 <= i < completed_of(s).len() implies s.contains(#[trigger] completed_of(s)[i]) by {
            if i < completed_of(s.drop_last()).len() {
                let el = completed_of(s.drop_last())[i];
                assert(s.drop_last().contains(el));
                let j = choose|j: int| 0 <= j < s.drop_last().len() && s.drop_last()[j] == el;
                assert(s[j] == el);
            } else {
                assert(completed_of(s)[i] == s.last());
                assert(s[s.len() - 1] == s.last());
            }
        }
    }
}

/// In a store with unique ids, no record appears twice among the
/// completed ones.
pub proof fn lemma_completed_of_count(s: Seq<Operation>)
    requires
        unique_ids(s),
    ensures
        forall|x: Operation| completed_of(s).to_multiset().count(x) <= 1,
{
    assert forall|i: int, j: int|
        (0 <= i < completed_of(s).len() && 0 <= j < completed_of(s).len() && i != j) implies
        completed_of(s)[i] != completed_of(s)[j] by {
        if i < j {
            lemma_completed_of_distinct_positions(s, i, j);
        } else {
            lemma_completed_of_distinct_positions(s, j, i);
        }
    }
    assert(completed_of(s).no_duplicates());
    completed_of(s).lemma_multiset_has_no_duplicates();
    assert forall|x: Operation| completed_of(s).to_multiset().count(x) <= 1 by {
        if completed_of(s).to_multiset().count(x) > 1 {
            assert(completed_of(s).to_multiset().contains(x));
        }
    }
}

/// Two positions of `completed_of` come from two positions of the source,
/// in order: with unique ids the records differ.
proof fn lemma_completed_of_distinct_positions(s: Seq<Operation>, i: int, j: int)
    requires
        unique_ids(s),
        0 <= i < j < completed_of(s).len(),
    ensures
        completed_of(s)[i] != completed_of(s)[j],
    decreases s.len(),
{
    if completed_of(s)[i] == completed_of(s)[j] {
        lemma_completed_of_positions(s, i, j);
    }
}

/// Distinct positions of `completed_of` carry records from distinct
/// positions of the source, which a unique-id store keeps distinct.
proof fn lemma_completed_of_positions(s: Seq<Operation>, i: int, j: int)
    requires
        unique_ids(s),
        0 <= i < j < completed_of(s).len(),
    ensures
        completed_of(s)[i].id@ != completed_of(s)[j].id@,
    decreases s.len(),
{
    if s.len() > 0 {
        assert forall|a: int, b: int|
            0 <= a < b < s.drop_last().len() implies s.drop_last()[a].id@ != s.drop_last()[b].id@
            by {
            assert(s[a].id@ != s[b].id@);
        }
        if j < completed_of(s.drop_last()).len() {
            lemma_completed_of_positions(s.drop_last(), i, j);
        } else {
            assert(s.last().status is Completed);
            assert(completed_of(s)[j] == s.last());
            lemma_completed_of_props(s.drop_last());
            let el = completed_of(s.drop_last())[i];
            assert(s.drop_last().contains(el));
            let p = choose|p: int| 0 <= p < s.drop_last().len() && s.drop_last()[p] == el;
            assert(s[p] == el);
            assert(s[p].id@ != s[s.len() - 1].id@);
        }
    }
}

/// The store after marking the record with the given id `Undone`; a record
/// is otherwise unchanged, and an absent id changes nothing.
pub open spec fn mark_undone_spec(s: Seq<Operation>, id: Seq<char>) -> Seq<Operation> {
    s.map_values(
        |op: Operation|
            if op.id@ == id {
                with_status(op, OperationStatus::Undone)
            } else {
                op
            },
    )
}

/// The number of records a query returns when the caller gave no limit.
pub open spec fn effective_limit(limit: Option<usize>) -> int {
    match limit {
        Some(n) => n as int,
        None => 50,
    }
}

/// The operation log store. Its view is the sequence of records in
/// insertion order.
pub struct OperationStore {
    ops: Vec<Operation>,
}

impl View for OperationStore {
    type V = Seq<Operation>;

    closed spec fn view(&self) -> Seq<Operation> {
        self.ops@
    }
}

impl OperationStore {
    /// Record ids are pairwise distinct.
    pub open spec fn wf(self) -> bool {
        unique_ids(self@)
    }

    /// A fresh store holds no history.
    pub fn new() -> (s: Self)
        ensures
            s@ == Seq::<Operation>::empty(),
            s.wf(),
    {
        OperationStore { ops: Vec::new() }
    }

    /// The number of records held.
    pub fn len(&self) -> (n: usize)
        ensures
            n == self@.len(),
    {
        self.ops.len()
    }

    /// Whether a record with this id is present.
    pub fn contains_id(&self, id: &String) -> (r: bool)
        ensures
            r == has_op_id(self@, id@),
    {
        let n = self.ops.len();
        let mut i: usize = 0;
        while i < n
            invariant
                i <= n,
                n == self@.len(),
                forall|j: int| 0 <= j < i ==> self@[j].id@ != id@,
            decreases n - i,
        {
            if self.ops[i].id == *id {
                return true;
            }
            i += 1;
        }
        false
    }

    /// Persist one new record. Fails, leaving the store unchanged, exactly
    /// when the id is already present.
    pub fn append(&mut self, op: Operation) -> (r: Result<(), StoreError>)
        ensures
            match r {
                Ok(_) => !has_op_id(old(self)@, op.id@) && final(self)@ == old(self)@.push(op),
                Err(e) => e == StoreError::DuplicateId && has_op_id(old(self)@, op.id@)
                    && final(self)@ == old(self)@,
            },
            old(self).wf() ==> final(self).wf(),
    {
        if self.contains_id(&op.id) {
            Err(StoreError::DuplicateId)
        } else {
            self.ops.push(op);
            Ok(())
        }
    }

    /// Idempotently move the record with this id to `Undone`; every other
    /// record, and a store without the id, is left as it was.
    pub fn mark_undone(&mut self, id: &String)
        ensures
            final(self)@ == mark_undone_spec(old(self)@, id@),
            old(self).wf() ==> final(self).wf(),
    {
        let ghost orig = self@;
        let n = self.ops.len();
        let mut i: usize = 0;
        while i < n
            invariant
                i <= n,
                n == orig.len(),
                self@.len() == orig.len(),
                forall|j: int|
                    0 <= j < i ==> self@[j] == (if orig[j].id@ == id@ {
                        with_status(orig[j], OperationStatus::Undone)
                    } else {
                        orig[j]
                    }),
                forall|j: int| i <= j < orig.len() ==> self@[j] == orig[j],
            decreases n - i,
        {
            if self.ops[i].id == *id {
                let updated = Operation {
                    status: OperationStatus::Undone,
                    ..self.ops[i].duplicate()
                };
                let _ = self.ops.remove(i);
                self.ops.insert(i, updated);
            }
            i += 1;
        }
        proof {
            assert(self@ =~= mark_undone_spec(orig, id@));
            if unique_ids(orig) {
                assert forall|j: int, k: int|
                    0 <= j < k < self@.len() implies self@[j].id@ != self@[k].id@ by {
                    assert(self@[j].id@ == orig[j].id@);
                    assert(self@[k].id@ == orig[k].id@);
                }
            }
        }
    }

    /// The `Completed` records, cloned, in store order.
    fn completed_clones(&self) -> (r: Vec<Operation>)
        ensures
            r@ == completed_of(self@),
    {
        let mut r: Vec<Operation> = Vec::new();
        let n = self.ops.len();
        let mut i: usize = 0;
        while i < n
            invariant
                i <= n,
                n == self@.len(),
                r@ == completed_of(self@.take(i as int)),
            decreases n - i,
        {
            proof {
                assert(self@.take(i + 1).drop_last() =~= self@.take(i as int));
                assert(self@.take(i + 1).last() == self@[i as int]);
            }
            if self.ops[i].status.is_completed() {
                r.push(self.ops[i].duplicate());
            }
            i += 1;
        }
        proof {
            assert(self@.take(n as int) =~= self@);
        }
        r
    }

    /// A cloned snapshot of every record, in insertion order.
    pub fn records(&self) -> (r: Vec<Operation>)
        ensures
            r@ == self@,
    {
        let mut r: Vec<Operation> = Vec::new();
        let n = self.ops.len();
        let mut i: usize = 0;
        while i < n
            invariant
                i <= n,
                n == self@.len(),
                r@ =~= self@.take(i as int),
            decreases n - i,
        {
            r.push(self.ops[i].duplicate());
            proof {
                assert(self@.take(i + 1) =~= self@.take(i as int).push(self@[i as int]));
            }
            i += 1;
        }
        proof {
            assert(self@.take(n as int) =~= self@);
        }
        r
    }

    /// Delete all records; irreversible.
    pub fn clear(&mut self)
        ensures
            final(self)@ == Seq::<Operation>::empty(),
            final(self).wf(),
    {
        self.ops.clear();
    }

    /// The `limit` most recently timestamped `Completed` records,
    /// most-recent-first: the undo candidate pool. The result is drawn from
    /// the completed records only, is sorted by timestamp descending, is as
    /// long as the pool allows, and omits only records whose timestamp is no
    /// newer than everything returned.
    pub fn list_recent_completed(&self, limit: Option<usize>) -> (r: Vec<Operation>)
        ensures
            sorted_desc(r@),
            r@.len() == if effective_limit(limit) <= completed_of(self@).len() {
                effective_limit(limit)
            } else {
                completed_of(self@).len() as int
            },
            forall|i: int|
                0 <= i < r@.len() ==> (#[trigger] r@[i]).status is Completed && self@.contains(
                    r@[i],
                ),
            forall|x: Operation|
                r@.to_multiset().count(x) <= completed_of(self@).to_multiset().count(x),
            forall|x: Operation|
                completed_of(self@).to_multiset().count(x) > r@.to_multiset().count(x) ==> forall|
                    i: int,
                |
                    0 <= i < r@.len() ==> x.timestamp <= (#[trigger] r@[i]).timestamp,
            self.wf() ==> forall|i: int, j: int| 0 <= i < j < r@.len() ==> r@[i].id@ != r@[j].id@,
            self@.len() == 0 ==> r@.len() == 0,
    {
        let pool = self.completed_clones();
        let r = top_recent(pool, limit);
        proof {
            lemma_completed_of_props(self@);
            assert forall|i: int|
                0 <= i < r@.len() implies (#[trigger] r@[i]).status is Completed && self@.contains(
                r@[i],
            ) by {
                assert(r@.to_multiset().count(r@[i]) > 0);
                assert(completed_of(self@).to_multiset().count(r@[i]) > 0);
                assert(completed_of(self@).contains(r@[i]));
            }
            if self.wf() {
                lemma_completed_of_count(self@);
                assert forall|x: Operation|
                    r@.to_multiset().contains(x) implies r@.to_multiset().count(x) == 1 by {
                    assert(r@.to_multiset().count(x) > 0);
                    assert(completed_of(self@).to_multiset().count(x) <= 1);
                }
                r@.lemma_multiset_has_no_duplicates_conv();
                assert forall|i: int, j: int|
                    0 <= i < j < r@.len() implies r@[i].id@ != r@[j].id@ by {
                    if r@[i].id@ == r@[j].id@ {
                        assert(self@.contains(r@[i]));
                        assert(self@.contains(r@[j]));
                        let p = choose|p: int| 0 <= p < self@.len() && self@[p] == r@[i];
                        let q = choose|q: int| 0 <= q < self@.len() && self@[q] == r@[j];
                        if p != q {
                            assert(self@[p].id@ != self@[q].id@);
                        } else {
                            assert(r@[i] == r@[j]);
                        }
                    }
                }
            }
        }
        r
    }

    /// The most recent records up to `limit` (50 when unspecified), grouped
    /// into batches at read time. Every batch is nonempty, carries the key
    /// its members share, is internally most-recent-first, and takes
    /// `created_at` from its first member; batch ids are pairwise distinct;
    /// the batches' members taken together are exactly the `limit` most
    /// recently timestamped records of the store, and no batch order is
    /// guaranteed.
    pub fn list_recent(&self, limit: Option<usize>) -> (r: Vec<OperationBatch>)
        ensures
            forall|b: int| 0 <= b < r@.len() ==> batch_ok(#[trigger] r@[b]),
            forall|b1: int, b2: int| 0 <= b1 < b2 < r@.len() ==> r@[b1].id@ != r@[b2].id@,
            flatten_batches(r@).len() == if effective_limit(limit) <= self@.len() {
                effective_limit(limit)
            } else {
                self@.len() as int
            },
            forall|x: Operation|
                flatten_batches(r@).to_multiset().count(x) <= self@.to_multiset().count(x),
            forall|x: Operation|
                self@.to_multiset().count(x) > flatten_batches(r@).to_multiset().count(x)
                    ==> forall|y: Operation|
                    flatten_batches(r@).to_multiset().count(y) > 0 ==> x.timestamp <= y.timestamp,
            self@.len() == 0 ==> r@.len() == 0,
    {
        let pool = self.records();
        let top = top_recent(pool, limit);
        let ghost top_view = top@;
        let r = group_batches(top);
        proof {
            assert forall|x: Operation|
                self@.to_multiset().count(x) > flatten_batches(r@).to_multiset().count(x) implies (
            forall|y: Operation|
                flatten_batches(r@).to_multiset().count(y) > 0 ==> x.timestamp <= y.timestamp) by {
                assert forall|y: Operation|
                    flatten_batches(r@).to_multiset().count(y) > 0 implies x.timestamp
                    <= y.timestamp by {
                    assert(top_view.to_multiset().count(y) > 0);
                    assert(top_view.contains(y));
                    let k = choose|k: int| 0 <= k < top_view.len() && top_view[k] == y;
                    assert(x.timestamp <= top_view[k].timestamp);
                }
            }
        }
        r
    }
}

/// A batch as `list_recent` builds it: nonempty, keyed consistently,
/// internally most-recent-first, timestamped by its first member, with an
/// empty description.
pub open spec fn batch_ok(b: OperationBatch) -> bool {
    &&& b.operations@.len() >= 1
    &&& b.created_at == b.operations@[0].timestamp
    &&& b.description@ == Seq::<char>::empty()
    &&& sorted_desc(b.operations@)
    &&& forall|j: int| 0 <= j < b.operations@.len() ==> batch_key(#[trigger] b.operations@[j]) == b.id@
}

/// All members of the given batches, in batch order.
pub open spec fn flatten_batches(bs: Seq<OperationBatch>) -> Seq<Operation>
    decreases bs.len(),
{
    if bs.len() == 0 {
        Seq::empty()
    } else {
        bs.first().operations@ + flatten_batches(bs.drop_first())
    }
}

proof fn lemma_flatten_push(bs: Seq<OperationBatch>, b: OperationBatch)
    ensures
        flatten_batches(bs.push(b)) == flatten_batches(bs) + b.operations@,
    decreases bs.len(),
{
    if bs.len() == 0 {
        assert(bs =~= Seq::<OperationBatch>::empty());
        assert(bs.push(b).drop_first() =~= Seq::<OperationBatch>::empty());
        assert(flatten_batches(Seq::<OperationBatch>::empty()) == Seq::<Operation>::empty());
        assert(bs.push(b).first() == b);
        assert(b.operations@ + Seq::<Operation>::empty() =~= b.operations@);
        assert(Seq::<Operation>::empty() + b.operations@ =~= b.operations@);
        assert(flatten_batches(bs.push(b)) =~= flatten_batches(bs) + b.operations@);
    } else {
        assert(bs.push(b).drop_first() =~= bs.drop_first().push(b));
        assert(bs.push(b).first() == bs.first());
        lemma_flatten_push(bs.drop_first(), b);
        assert((bs.first().operations@ + flatten_batches(bs.drop_first())) + b.operations@
            =~= bs.first().operations@ + (flatten_batches(bs.drop_first()) + b.operations@));
        assert(flatten_batches(bs.push(b)) =~= flatten_batches(bs) + b.operations@);
    }
}

proof fn lemma_flatten_update_push(bs: Seq<OperationBatch>, m: int, b2: OperationBatch, x: Operation)
    requires
        0 <= m < bs.len(),
        b2.operations@ == bs[m].operations@.push(x),
    ensures
        flatten_batches(bs.update(m, b2)).to_multiset() == flatten_batches(
            bs,
        ).to_multiset().insert(x),
    decreases bs.len(),
{
    broadcast use vstd::seq_lib::group_to_multiset_ensures;

    if m == 0 {
        let a = bs[0].operations@;
        let c = flatten_batches(bs.drop_first());
        assert(bs.update(0, b2).drop_first() =~= bs.drop_first());
        assert(bs.update(0, b2).first() == b2);
        assert(b2.operations@ =~= a + seq![x]);
        vstd::seq_lib::lemma_multiset_commutative(a + seq![x], c);
        vstd::seq_lib::lemma_multiset_commutative(a, seq![x]);
        vstd::seq_lib::lemma_multiset_commutative(a, c);
        assert(seq![x] =~= Seq::<Operation>::empty().push(x));
        assert(Seq::<Operation>::empty().to_multiset() =~= Multiset::<Operation>::empty()) by {
            assert(Seq::<Operation>::empty().to_multiset().len() == 0);
        }
        assert(seq![x].to_multiset() =~= Multiset::<Operation>::empty().insert(x));
        assert(flatten_batches(bs.update(0, b2)).to_multiset() =~= flatten_batches(
            bs,
        ).to_multiset().insert(x));
    } else {
        assert(bs.update(m, b2).drop_first() =~= bs.drop_first().update(m - 1, b2));
        assert(bs.update(m, b2).first() == bs.first());
        assert(bs.drop_first()[m - 1] == bs[m]);
        lemma_flatten_update_push(bs.drop_first(), m - 1, b2, x);
        let a = bs[0].operations@;
        let c = flatten_batches(bs.drop_first());
        let c2 = flatten_batches(bs.drop_first().update(m - 1, b2));
        vstd::seq_lib::lemma_multiset_commutative(a, c);
        vstd::seq_lib::lemma_multiset_commutative(a, c2);
        assert(flatten_batches(bs.update(m, b2)).to_multiset() =~= flatten_batches(
            bs,
        ).to_multiset().insert(x));
    }
}

/// The key `list_recent` groups a record under, as an owned string.
fn batch_key_exec(op: &Operation) -> (k: String)
    ensures
        k@ == batch_key(*op),
{
    match &op.batch_id {
        Some(b) => b.clone(),
        None => op.id.clone(),
    }
}

/// Stable insertion sort by timestamp, most recent first.
fn sort_desc(v: Vec<Operation>) -> (r: Vec<Operation>)
    ensures
        sorted_desc(r@),
        r@.to_multiset() == v@.to_multiset(),
        r@.len() == v@.len(),
{
    broadcast use vstd::seq_lib::group_to_multiset_ensures;

    let mut r: Vec<Operation> = Vec::new();
    let n = v.len();
    let mut i: usize = 0;
    while i < n
        invariant
            i <= n,
            n == v@.len(),
            r@.len() == i,
            sorted_desc(r@),
            r@.to_multiset() == v@.take(i as int).to_multiset(),
        decreases n - i,
    {
        let x = v[i].duplicate();
        let mut j: usize = 0;
        while j < r.len() && r[j].timestamp >= x.timestamp
            invariant
                j <= r@.len(),
                forall|k: int| 0 <= k < j ==> (#[trigger] r@[k]).timestamp >= x.timestamp,
            decreases r@.len() - j,
        {
            j += 1;
        }
        let ghost r_old = r@;
        r.insert(j, x);
        proof {
            vstd::seq_lib::to_multiset_insert(r_old, j as int, x);
            assert(v@.take(i + 1) =~= v@.take(i as int).push(v@[i as int]));
            assert(r@.to_multiset() =~= v@.take(i + 1).to_multiset());
            r_old.insert_ensures(j as int, x);
            assert forall|a: int, b: int|
                0 <= a < b < r@.len() implies r@[a].timestamp >= r@[b].timestamp by {
                if b < j {
                    assert(r@[a] == r_old[a] && r@[b] == r_old[b]);
                } else if a < j && b == j {
                    assert(r@[a] == r_old[a] && r@[b] == x);
                } else if a < j && b > j {
                    assert(r@[a] == r_old[a] && r@[b] == r_old[b - 1]);
                    if b - 1 >= j + 1 {
                        assert(r_old[j as int].timestamp >= r_old[b - 1].timestamp);
                    }
                    assert(r_old[a].timestamp >= x.timestamp);
                } else if a == j {
                    assert(r@[a] == x && r@[b] == r_old[b - 1]);
                    assert(x.timestamp > r_old[j as int].timestamp || j == r_old.len());
                    assert(r_old[j as int].timestamp >= r_old[b - 1].timestamp || j as int == b - 1);
                } else {
                    assert(r@[a] == r_old[a - 1] && r@[b] == r_old[b - 1]);
                }
            }
        }
        i += 1;
    }
    proof {
        assert(v@.take(n as int) =~= v@);
    }
    r
}

/// The `limit` (50 when unspecified) most recently timestamped records of
/// `v`, most recent first; what is omitted is no newer than anything kept.
fn top_recent(v: Vec<Operation>, limit: Option<usize>) -> (r: Vec<Operation>)
    ensures
        sorted_desc(r@),
        r@.len() == if effective_limit(limit) <= v@.len() {
            effective_limit(limit)
        } else {
            v@.len() as int
        },
        forall|x: Operation| r@.to_multiset().count(x) <= v@.to_multiset().count(x),
        forall|x: Operation|
            v@.to_multiset().count(x) > r@.to_multiset().count(x) ==> forall|i: int|
                0 <= i < r@.len() ==> x.timestamp <= (#[trigger] r@[i]).timestamp,
{
    broadcast use vstd::seq_lib::group_to_multiset_ensures;

    let lim: usize = match limit {
        Some(n) => n,
        None => 50,
    };
    let mut s = sort_desc(v);
    let ghost full = s@;
    if lim < s.len() {
        s.truncate(lim);
    }
    proof {
        let rest = full.skip(s@.len() as int);
        assert(full =~= s@ + rest);
        vstd::seq_lib::lemma_multiset_commutative(s@, rest);
        assert forall|x: Operation|
            full.to_multiset().count(x) > s@.to_multiset().count(x) implies (forall|i: int|
            0 <= i < s@.len() ==> x.timestamp <= (#[trigger] s@[i]).timestamp) by {
            assert(rest.to_multiset().count(x) > 0);
            assert(rest.contains(x));
            let k = choose|k: int| 0 <= k < rest.len() && rest[k] == x;
            assert(full[s@.len() + k] == x);
            assert forall|i: int|
                0 <= i < s@.len() implies x.timestamp <= (#[trigger] s@[i]).timestamp by {
                assert(full[i] == s@[i]);
                assert(full[i].timestamp >= full[s@.len() + k].timestamp);
            }
        }
    }
    s
}

/// Group most-recent-first records into batches by key, preserving order
/// within each batch; batches appear in order of first occurrence.
fn group_batches(v: Vec<Operation>) -> (r: Vec<OperationBatch>)
    requires
        sorted_desc(v@),
    ensures
        forall|b: int| 0 <= b < r@.len() ==> batch_ok(#[trigger] r@[b]),
        forall|b1: int, b2: int| 0 <= b1 < b2 < r@.len() ==> r@[b1].id@ != r@[b2].id@,
        flatten_batches(r@).to_multiset() == v@.to_multiset(),
        flatten_batches(r@).len() == v@.len(),
        v@.len() == 0 ==> r@.len() == 0,
{
    broadcast use vstd::seq_lib::group_to_multiset_ensures;

    let mut r: Vec<OperationBatch> = Vec::new();
    let n = v.len();
    let mut i: usize = 0;
    while i < n
        invariant
            i <= n,
            n == v@.len(),
            sorted_desc(v@),
            forall|b: int| 0 <= b < r@.len() ==> batch_ok(#[trigger] r@[b]),
            forall|b1: int, b2: int| 0 <= b1 < b2 < r@.len() ==> r@[b1].id@ != r@[b2].id@,
            flatten_batches(r@).to_multiset() == v@.take(i as int).to_multiset(),
            forall|b: int, j: int, k: int|
                0 <= b < r@.len() && 0 <= j < r@[b].operations@.len() && i <= k < n ==> (
                #[trigger] r@[b].operations@[j]).timestamp >= (#[trigger] v@[k]).timestamp,
            i == 0 ==> r@.len() == 0,
        decreases n - i,
    {
        let x = v[i].duplicate();
        let key = batch_key_exec(&x);
        let mut m: usize = 0;
        while m < r.len() && !(r[m].id == key)
            invariant
                m <= r@.len(),
                forall|t: int| 0 <= t < m ==> (#[trigger] r@[t]).id@ != key@,
            decreases r@.len() - m,
        {
            m += 1;
        }
        proof {
            assert(v@.take(i + 1) =~= v@.take(i as int).push(v@[i as int]));
        }
        if m < r.len() {
            let ghost r_old = r@;
            let mut b = r.remove(m);
            b.operations.push(x);
            let ghost b2 = b;
            r.insert(m, b);
            proof {
                assert(r@ =~= r_old.update(m as int, b2));
                lemma_flatten_update_push(r_old, m as int, b2, x);
                assert(batch_ok(b2)) by {
                    assert(batch_ok(r_old[m as int]));
                    assert(forall|j: int|
                        0 <= j < r_old[m as int].operations@.len()
                            ==> r_old[m as int].operations@[j].timestamp >= (#[trigger] v@[
                        i as int]).timestamp);
                }
            }
        } else {
            let ts = x.timestamp;
            let mut ops: Vec<Operation> = Vec::new();
            ops.push(x);
            let b = OperationBatch {
                id: key,
                operations: ops,
                created_at: ts,
                description: String::new(),
            };
            let ghost r_old = r@;
            r.push(b);
            proof {
                lemma_flatten_push(r_old, b);
                vstd::seq_lib::lemma_multiset_commutative(flatten_batches(r_old), b.operations@);
                assert(b.operations@ =~= Seq::<Operation>::empty().push(v@[i as int]));
                assert(Seq::<Operation>::empty().to_multiset() =~= Multiset::<
                    Operation,
                >::empty()) by {
                    assert(Seq::<Operation>::empty().to_multiset().len() == 0);
                }
                assert(flatten_batches(r@).to_multiset() =~= v@.take(i + 1).to_multiset());
                assert(batch_ok(b));
            }
        }
        i += 1;
    }
    proof {
        assert(v@.take(n as int) =~= v@);
        assert(flatten_batches(r@).len() == flatten_batches(r@).to_multiset().len());
        assert(v@.len() == v@.to_multiset().len());
    }
    r
}

} // verus!
