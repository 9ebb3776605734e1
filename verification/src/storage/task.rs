//! The task table: one row per task, found by `id`, in insertion order.

use crate::clock::now_millis;
use crate::schedule::types::{StatusKind, Task, TaskStatus, TaskStatusView, TaskType, TaskView};
use crate::text::str_eq;
use crate::web::Pagination;
use vstd::prelude::*;

verus! {

/// No two rows share an `id`.
pub open spec fn unique_ids(rows: Seq<TaskView>) -> bool {
    forall|i: int, j: int| 0 <= i < j < rows.len() ==> rows[i].id != rows[j].id
}

/// Every row satisfies the task invariants.
pub open spec fn all_valid(rows: Seq<TaskView>) -> bool {
    forall|i: int| 0 <= i < rows.len() ==> (#[trigger] rows[i]).valid()
}

/// Some row has this `id`.
pub open spec fn holds_id(rows: Seq<TaskView>, id: Seq<char>) -> bool {
    exists|i: int| 0 <= i < rows.len() && (#[trigger] rows[i]).id == id
}

/// The place of the row with this `id`, where there is one.
pub open spec fn row_index(rows: Seq<TaskView>, id: Seq<char>) -> int {
    choose|i: int| 0 <= i < rows.len() && (#[trigger] rows[i]).id == id
}

/// The row with this `id`.
pub open spec fn lookup(rows: Seq<TaskView>, id: Seq<char>) -> Option<TaskView> {
    if holds_id(rows, id) {
        Some(rows[row_index(rows, id)])
    } else {
        None
    }
}

/// What an upsert stores in place of `old`: the incoming task, under the
/// `id` and creation time that the row already has.
pub open spec fn merged(old: TaskView, new: TaskView) -> TaskView {
    TaskView { id: old.id, created_at: old.created_at, ..new }
}

/// The table after `task` was written: the row with its `id` is replaced by
/// the merge, or the task is appended when no row has that `id`.
pub open spec fn upserted(rows: Seq<TaskView>, task: TaskView) -> Seq<TaskView> {
    if holds_id(rows, task.id) {
        let i = row_index(rows, task.id);
        rows.update(i, merged(rows[i], task))
    } else {
        rows.push(task)
    }
}

/// The table after the status of the row `id` was set at `now`; unchanged
/// when no row has that `id`.
pub open spec fn with_row_status(
    rows: Seq<TaskView>,
    id: Seq<char>,
    status: TaskStatusView,
    now: i64,
) -> Seq<TaskView> {
    if holds_id(rows, id) {
        let i = row_index(rows, id);
        rows.update(i, rows[i].with_status(status, now))
    } else {
        rows
    }
}

/// The table without the row `id`; unchanged when no row has that `id`.
pub open spec fn without_row(rows: Seq<TaskView>, id: Seq<char>) -> Seq<TaskView> {
    if holds_id(rows, id) {
        rows.remove(row_index(rows, id))
    } else {
        rows
    }
}

/// In a table with unique ids, a row found under an `id` is the row that
/// `row_index` names.
pub proof fn lemma_row_index(rows: Seq<TaskView>, i: int)
    requires
        unique_ids(rows),
        0 <= i < rows.len(),
    ensures
        holds_id(rows, rows[i].id),
        row_index(rows, rows[i].id) == i,
        lookup(rows, rows[i].id) == Some(rows[i]),
{
    let id = rows[i].id;
    assert(holds_id(rows, id));
    let j = row_index(rows, id);
    assert(0 <= j < rows.len() && rows[j].id == id);
    if j < i {
        assert(rows[j].id != rows[i].id);
    } else if i < j {
        assert(rows[i].id != rows[j].id);
    }
}

/// The order in which a query hands out rows.
#[derive(Debug, Clone, Copy, PartialEq, Eq, Structural)]
pub enum RowOrder {
    /// Oldest first.
    Created,
    /// Most urgent first, and among equals the oldest first.
    Urgency,
    /// Least urgent first, and among equals the oldest first.
    Lenience,
}

/// The rows a query looks at.
#[derive(Debug, Clone, Copy, PartialEq, Eq, Structural)]
pub enum RowFilter {
    /// Every row.
    All,
    /// Pending rows, of the given kind of task where one is given.
    Waiting(Option<TaskType>),
    /// Rows whose status is of the given kind.
    Kind(StatusKind),
    /// Rows that have timed out at the given instant.
    Overdue(i64),
    /// Completed and failed rows last updated before the given instant.
    Expired(i64),
}

impl RowOrder {
    /// The pair by which rows are compared, first component first.
    pub open spec fn key(self, t: TaskView) -> (int, int) {
        match self {
            RowOrder::Created => (t.created_at as int, 0),
            RowOrder::Urgency => (t.config.priority.spec_rank(), t.created_at as int),
            RowOrder::Lenience => (-t.config.priority.spec_rank(), t.created_at as int),
        }
    }

    /// `a` is not handed out after `b`.
    pub open spec fn le(self, a: TaskView, b: TaskView) -> bool {
        let ka = self.key(a);
        let kb = self.key(b);
        ka.0 < kb.0 || (ka.0 == kb.0 && ka.1 <= kb.1)
    }

    fn key_of(&self, t: &Task) -> (r: (i64, i64))
        ensures
            self.key(t@) == (r.0 as int, r.1 as int),
    {
        match self {
            RowOrder::Created => (t.created_at, 0),
            RowOrder::Urgency => (t.config.priority.rank() as i64, t.created_at),
            RowOrder::Lenience => (-(t.config.priority.rank() as i64), t.created_at),
        }
    }

    fn not_after(&self, a: &Task, b: &Task) -> (r: bool)
        ensures
            r == self.le(a@, b@),
    {
        let ka = self.key_of(a);
        let kb = self.key_of(b);
        ka.0 < kb.0 || (ka.0 == kb.0 && ka.1 <= kb.1)
    }
}

impl RowFilter {
    /// Whether the query looks at the row.
    pub open spec fn admits(self, t: TaskView) -> bool {
        match self {
            RowFilter::All => true,
            RowFilter::Waiting(None) => t.status is Pending,
            RowFilter::Waiting(Some(k)) => t.status is Pending && t.config.task_type == k,
            RowFilter::Kind(k) => t.status.kind() == k,
            RowFilter::Overdue(now) => t.timed_out_at(now as int),
            RowFilter::Expired(before) => (t.status is Completed || t.status is Failed)
                && t.updated_at < before,
        }
    }

    fn test(&self, t: &Task) -> (r: bool)
        ensures
            r == self.admits(t@),
    {
        match self {
            RowFilter::All => true,
            RowFilter::Waiting(None) => t.status.is_pending(),
            RowFilter::Waiting(Some(k)) => t.status.is_pending() && t.config.task_type == *k,
            RowFilter::Kind(k) => t.status.kind() == *k,
            RowFilter::Overdue(now) => {
                if !t.status.is_processing() {
                    return false;
                }
                match (t.started_at, t.config.timeout) {
                    (Some(s), Some(limit)) => {
                        let span: i128 = (limit as i128) * 1000;
                        let deadline: i128 = s as i128 + span;
                        deadline < *now as i128
                    },
                    _ => false,
                }
            },
            RowFilter::Expired(before) => {
                let done = match t.status.kind() {
                    StatusKind::Completed => true,
                    StatusKind::Failed => true,
                    _ => false,
                };
                done && t.updated_at < *before
            },
        }
    }
}

/// The rows that `filter` admits, in table order.
pub open spec fn rows_where(rows: Seq<TaskView>, filter: RowFilter) -> Seq<TaskView> {
    rows.filter(|t: TaskView| filter.admits(t))
}

/// The rows that `filter` does not admit, in table order.
pub open spec fn rows_except(rows: Seq<TaskView>, filter: RowFilter) -> Seq<TaskView> {
    rows.filter(|t: TaskView| !filter.admits(t))
}

/// `sorted` with `t` put behind the last row that is not handed out after it.
pub open spec fn insert_row(sorted: Seq<TaskView>, t: TaskView, order: RowOrder) -> Seq<TaskView>
    decreases sorted.len(),
{
    if sorted.len() == 0 || order.le(sorted.last(), t) {
        sorted.push(t)
    } else {
        insert_row(sorted.drop_last(), t, order).push(sorted.last())
    }
}

/// The rows in the order `order`; rows that compare equal keep their table
/// order.
pub open spec fn sorted_by(rows: Seq<TaskView>, order: RowOrder) -> Seq<TaskView>
    decreases rows.len(),
{
    if rows.len() == 0 {
        rows
    } else {
        insert_row(sorted_by(rows.drop_last(), order), rows.last(), order)
    }
}

/// The first `n` rows, or all of them when there are fewer.
pub open spec fn first_rows(rows: Seq<TaskView>, n: int) -> Seq<TaskView> {
    if n <= 0 {
        Seq::empty()
    } else if n >= rows.len() {
        rows
    } else {
        rows.subrange(0, n)
    }
}

/// The page `p` of `rows`: `p.size` rows behind the first
/// `(p.index - 1) * p.size`, as far as there are any. An out-of-range page
/// request stands for the first ten rows.
pub open spec fn page_of(rows: Seq<TaskView>, p: Pagination) -> Seq<TaskView> {
    let q = p.checked();
    let from = q.spec_offset();
    if from >= rows.len() {
        Seq::empty()
    } else {
        first_rows(rows.subrange(from, rows.len() as int), q.size as int)
    }
}

/// Inserting at the place behind which every row is handed out after `t`, and
/// in front of which the row is not, is what `insert_row` does.
pub proof fn lemma_insert_row_at(sorted: Seq<TaskView>, t: TaskView, order: RowOrder, p: int)
    requires
        0 <= p <= sorted.len(),
        forall|j: int| p <= j < sorted.len() ==> !order.le(#[trigger] sorted[j], t),
        p > 0 ==> order.le(sorted[p - 1], t),
    ensures
        insert_row(sorted, t, order) == sorted.insert(p, t),
    decreases sorted.len() - p,
{
    if p == sorted.len() {
        assert(sorted.insert(p, t) =~= sorted.push(t));
    } else {
        assert(!order.le(sorted[sorted.len() - 1], t));
        let rest = sorted.drop_last();
        assert forall|j: int| p <= j < rest.len() implies !order.le(#[trigger] rest[j], t) by {
            assert(rest[j] == sorted[j]);
        }
        if p > 0 {
            assert(rest[p - 1] == sorted[p - 1]);
        }
        lemma_insert_row_at(rest, t, order, p);
        assert(rest.insert(p, t).push(sorted.last()) =~= sorted.insert(p, t));
    }
}

/// Rows in order stay in order when a row is inserted, and the result holds
/// the same rows and the new one.
pub proof fn lemma_insert_row(sorted: Seq<TaskView>, t: TaskView, order: RowOrder)
    requires
        forall|i: int, j: int| 0 <= i < j < sorted.len() ==> order.le(sorted[i], sorted[j]),
    ensures
        forall|i: int, j: int|
            0 <= i < j < insert_row(sorted, t, order).len() ==> order.le(
                insert_row(sorted, t, order)[i],
                insert_row(sorted, t, order)[j],
            ),
        insert_row(sorted, t, order).len() == sorted.len() + 1,
        insert_row(sorted, t, order).to_multiset() == sorted.to_multiset().insert(t),
    decreases sorted.len(),
{
    broadcast use vstd::seq_lib::to_multiset_build;

    let out = insert_row(sorted, t, order);
    if sorted.len() == 0 || order.le(sorted.last(), t) {
        assert forall|i: int, j: int| 0 <= i < j < out.len() implies order.le(out[i], out[j]) by {
            if j == sorted.len() {
                if i < sorted.len() - 1 {
                    assert(order.le(sorted[i], sorted[sorted.len() - 1]));
                }
            }
        }
    } else {
        let rest = sorted.drop_last();
        let last = sorted.last();
        assert forall|i: int, j: int| 0 <= i < j < rest.len() implies order.le(
            rest[i],
            rest[j],
        ) by {
            assert(rest[i] == sorted[i] && rest[j] == sorted[j]);
        }
        lemma_insert_row(rest, t, order);
        let inner = insert_row(rest, t, order);
        assert(out == inner.push(last));
        assert forall|x: TaskView| inner.contains(x) implies order.le(x, last) by {
            vstd::seq_lib::to_multiset_contains(inner, x);
            vstd::seq_lib::to_multiset_contains(rest, x);
            if x != t {
                assert(rest.to_multiset().insert(t).count(x) == rest.to_multiset().count(x));
                assert(rest.contains(x));
                let k = choose|k: int| 0 <= k < rest.len() && rest[k] == x;
                assert(order.le(sorted[k], sorted[sorted.len() - 1]));
            }
        }
        assert forall|i: int, j: int| 0 <= i < j < out.len() implies order.le(out[i], out[j]) by {
            if j == inner.len() {
                assert(inner.contains(inner[i]));
            }
        }
        assert(sorted =~= rest.push(last));
        assert(rest.to_multiset().insert(t).insert(last) =~= rest.to_multiset().insert(
            last,
        ).insert(t));
    }
}

/// Law of the serving order: `sorted_by` hands out the same rows, each as
/// often as the table holds it, and never a row before one that `order` puts
/// in front of it.
pub proof fn lemma_sorted_by(rows: Seq<TaskView>, order: RowOrder)
    ensures
        sorted_by(rows, order).len() == rows.len(),
        sorted_by(rows, order).to_multiset() == rows.to_multiset(),
        forall|i: int, j: int|
            0 <= i < j < rows.len() ==> order.le(
                sorted_by(rows, order)[i],
                sorted_by(rows, order)[j],
            ),
    decreases rows.len(),
{
    broadcast use vstd::seq_lib::to_multiset_build;

    if rows.len() == 0 {
    } else {
        let rest = rows.drop_last();
        lemma_sorted_by(rest, order);
        lemma_insert_row(sorted_by(rest, order), rows.last(), order);
        assert(rows =~= rest.push(rows.last()));
    }
}

/// A filter that admits every row leaves the table as it is.
pub proof fn lemma_rows_where_all(rows: Seq<TaskView>)
    ensures
        rows_where(rows, RowFilter::All) == rows,
    decreases rows.len(),
{
    reveal(Seq::filter);
    if rows.len() > 0 {
        lemma_rows_where_all(rows.drop_last());
        assert(rows.drop_last().push(rows.last()) =~= rows);
    }
}

/// Row by row: the admitted rows of a table with one more row.
pub proof fn lemma_rows_where_push(rows: Seq<TaskView>, t: TaskView, filter: RowFilter)
    ensures
        rows_where(rows.push(t), filter) == if filter.admits(t) {
            rows_where(rows, filter).push(t)
        } else {
            rows_where(rows, filter)
        },
        rows_except(rows.push(t), filter) == if filter.admits(t) {
            rows_except(rows, filter)
        } else {
            rows_except(rows, filter).push(t)
        },
{
    rows.lemma_filter_push(t, |t: TaskView| filter.admits(t));
    rows.lemma_filter_push(t, |t: TaskView| !filter.admits(t));
}

/// Puts `task` into `out` behind the last row that is not handed out after it.
fn insert_sorted(out: &mut Vec<Task>, task: Task, order: RowOrder)
    ensures
        final(out).deep_view() == insert_row(old(out).deep_view(), task@, order),
{
    let ghost before = out.deep_view();
    let mut p: usize = out.len();
    while p > 0
        invariant
            p <= out.len(),
            out.deep_view() == before,
            forall|j: int| p <= j < out.len() ==> !order.le(#[trigger] before[j], task@),
        ensures
            p <= out.len(),
            out.deep_view() == before,
            forall|j: int| p <= j < out.len() ==> !order.le(#[trigger] before[j], task@),
            p > 0 ==> order.le(before[p - 1], task@),
        decreases p,
    {
        assert(out[p - 1]@ == before[p - 1]);
        if order.not_after(&out[p - 1], &task) {
            break ;
        }
        p = p - 1;
    }
    proof {
        lemma_insert_row_at(before, task@, order, p as int);
    }
    let ghost t = task@;
    out.insert(p, task);
    assert(out.deep_view() =~= before.insert(p as int, t));
}

/// The pending rows of one kind of task that a claim of `limit` rows takes:
/// the most urgent first, and among equals the oldest first.
pub open spec fn claimable(rows: Seq<TaskView>, kind: TaskType, limit: int) -> Seq<TaskView> {
    first_rows(
        sorted_by(rows_where(rows, RowFilter::Waiting(Some(kind))), RowOrder::Urgency),
        limit,
    )
}

/// The table after each of the `chosen` rows, in turn, was set to Processing
/// at `now`.
pub open spec fn marked(rows: Seq<TaskView>, chosen: Seq<TaskView>, now: i64) -> Seq<TaskView>
    decreases chosen.len(),
{
    if chosen.len() == 0 {
        rows
    } else {
        with_row_status(
            marked(rows, chosen.drop_last(), now),
            chosen.last().id,
            TaskStatusView::Processing,
            now,
        )
    }
}

/// The `chosen` rows as they are once claimed at `now`.
pub open spec fn started(chosen: Seq<TaskView>, now: i64) -> Seq<TaskView> {
    Seq::new(chosen.len(), |i: int| chosen[i].with_status(TaskStatusView::Processing, now))
}

/// Every row that a query hands out is a row of the table that the filter
/// admits.
pub proof fn lemma_sorted_rows_are_rows(
    rows: Seq<TaskView>,
    filter: RowFilter,
    order: RowOrder,
    i: int,
)
    requires
        0 <= i < sorted_by(rows_where(rows, filter), order).len(),
    ensures
        rows.contains(sorted_by(rows_where(rows, filter), order)[i]),
        filter.admits(sorted_by(rows_where(rows, filter), order)[i]),
{
    let kept = rows_where(rows, filter);
    let sorted = sorted_by(kept, order);
    let x = sorted[i];
    lemma_sorted_by(kept, order);
    vstd::seq_lib::to_multiset_contains(sorted, x);
    vstd::seq_lib::to_multiset_contains(kept, x);
    assert(sorted.contains(x));
    assert(kept.contains(x));
    rows.lemma_filter_contains_rev(|t: TaskView| filter.admits(t), x);
}

/// Law of the round trip: a task written under a new `id` is read back as it
/// was written, times included; a task written over a row is read back as
/// written but for the creation time, which stays that of the row.
pub proof fn lemma_write_then_read(rows: Seq<TaskView>, task: TaskView)
    requires
        unique_ids(rows),
    ensures
        unique_ids(upserted(rows, task)),
        !holds_id(rows, task.id) ==> lookup(upserted(rows, task), task.id) == Some(task),
        holds_id(rows, task.id) ==> lookup(upserted(rows, task), task.id) == Some(
            TaskView { created_at: lookup(rows, task.id).unwrap().created_at, ..task },
        ),
{
    let after = upserted(rows, task);
    if holds_id(rows, task.id) {
        let i = row_index(rows, task.id);
        assert(after[i].id == task.id);
        assert(unique_ids(after));
        lemma_row_index(after, i);
    } else {
        let i = rows.len() as int;
        assert(after[i] == task);
        assert(unique_ids(after));
        lemma_row_index(after, i);
    }
}

/// The table after every row that `filter` admits was set to `status` at
/// `now`.
pub open spec fn rows_marked(
    rows: Seq<TaskView>,
    filter: RowFilter,
    status: TaskStatusView,
    now: i64,
) -> Seq<TaskView> {
    Seq::new(
        rows.len(),
        |i: int|
            if filter.admits(rows[i]) {
                rows[i].with_status(status, now)
            } else {
                rows[i]
            },
    )
}

/// Law of the sweep: once the rows that a filter admits are removed, none is
/// left for a second sweep with the same filter, which therefore removes
/// nothing.
pub proof fn lemma_sweep_twice(rows: Seq<TaskView>, filter: RowFilter)
    ensures
        rows_except(rows_except(rows, filter), filter) == rows_except(rows, filter),
        forall|i: int|
            0 <= i < rows_except(rows, filter).len() ==> !filter.admits(
                #[trigger] rows_except(rows, filter)[i],
            ),
    decreases rows.len(),
{
    reveal(Seq::filter);
    if rows.len() > 0 {
        let rest = rows.drop_last();
        lemma_sweep_twice(rest, filter);
        assert(rest.push(rows.last()) =~= rows);
        lemma_rows_where_push(rest, rows.last(), filter);
        if !filter.admits(rows.last()) {
            lemma_rows_where_push(rows_except(rest, filter), rows.last(), filter);
        }
    }
}

/// Reading after a write: the written `id` reads as the merge (or the task
/// itself where the `id` is new); every other `id` reads as before.
pub proof fn lemma_lookup_upserted(rows: Seq<TaskView>, task: TaskView, id: Seq<char>)
    requires
        unique_ids(rows),
    ensures
        unique_ids(upserted(rows, task)),
        lookup(upserted(rows, task), id) == if id == task.id {
            match lookup(rows, id) {
                Some(old) => Some(merged(old, task)),
                None => Some(task),
            }
        } else {
            lookup(rows, id)
        },
{
    let after = upserted(rows, task);
    lemma_write_then_read(rows, task);
    if id != task.id {
        if holds_id(rows, id) {
            let i = row_index(rows, id);
            assert(after[i] == rows[i]);
            lemma_row_index(after, i);
        } else if holds_id(after, id) {
            let i = row_index(after, id);
            if i < rows.len() {
                assert(rows[i].id == id);
            }
        }
    }
}

/// Reading after a change of status: the changed `id` reads with its new
/// status; every other `id` reads as before.
pub proof fn lemma_lookup_with_row_status(
    rows: Seq<TaskView>,
    target: Seq<char>,
    status: TaskStatusView,
    now: i64,
    id: Seq<char>,
)
    requires
        unique_ids(rows),
    ensures
        unique_ids(with_row_status(rows, target, status, now)),
        lookup(with_row_status(rows, target, status, now), id) == if id == target {
            match lookup(rows, id) {
                Some(old) => Some(old.with_status(status, now)),
                None => None,
            }
        } else {
            lookup(rows, id)
        },
{
    let after = with_row_status(rows, target, status, now);
    if holds_id(rows, target) {
        let k = row_index(rows, target);
        assert(after[k].id == target);
        assert(unique_ids(after));
        if id == target {
            lemma_row_index(after, k);
        } else if holds_id(rows, id) {
            let i = row_index(rows, id);
            assert(after[i] == rows[i]);
            lemma_row_index(after, i);
        } else if holds_id(after, id) {
            let i = row_index(after, id);
            assert(rows[i].id == id);
        }
    }
}

/// Reading after a removal: the removed `id` is gone; every other `id`
/// reads as before.
pub proof fn lemma_lookup_without_row(rows: Seq<TaskView>, target: Seq<char>, id: Seq<char>)
    requires
        unique_ids(rows),
    ensures
        unique_ids(without_row(rows, target)),
        lookup(without_row(rows, target), id) == if id == target {
            None
        } else {
            lookup(rows, id)
        },
{
    let after = without_row(rows, target);
    if holds_id(rows, target) {
        let k = row_index(rows, target);
        assert forall|i: int, j: int| 0 <= i < j < after.len() implies after[i].id
            != after[j].id by {
            let a = if i < k { i } else { i + 1 };
            let b = if j < k { j } else { j + 1 };
            assert(rows[a].id != rows[b].id);
        }
        if holds_id(after, id) {
            let i = row_index(after, id);
            let a = if i < k { i } else { i + 1 };
            assert(rows[a].id == id);
            lemma_row_index(rows, a);
            lemma_row_index(rows, k);
            lemma_row_index(after, i);
        } else if holds_id(rows, id) && id != target {
            let a = row_index(rows, id);
            let i = if a < k { a } else { a - 1 };
            assert(after[i] == rows[a]);
        }
    }
}

/// Reading after a bulk change of status: an `id` whose row the filter
/// admits reads with the new status; every other `id` reads as before.
pub proof fn lemma_lookup_rows_marked(
    rows: Seq<TaskView>,
    filter: RowFilter,
    status: TaskStatusView,
    now: i64,
    id: Seq<char>,
)
    requires
        unique_ids(rows),
    ensures
        unique_ids(rows_marked(rows, filter, status, now)),
        lookup(rows_marked(rows, filter, status, now), id) == match lookup(rows, id) {
            Some(old) => Some(
                if filter.admits(old) {
                    old.with_status(status, now)
                } else {
                    old
                },
            ),
            None => None,
        },
{
    let after = rows_marked(rows, filter, status, now);
    assert forall|i: int, j: int| 0 <= i < j < after.len() implies after[i].id != after[j].id by {
        assert(rows[i].id != rows[j].id);
    }
    if holds_id(rows, id) {
        let i = row_index(rows, id);
        assert(after[i].id == id);
        lemma_row_index(after, i);
    } else if holds_id(after, id) {
        let i = row_index(after, id);
        assert(rows[i].id == id);
    }
}

/// Reading after a sweep: an `id` whose row the filter admits is gone;
/// every other `id` reads as before.
pub proof fn lemma_lookup_rows_except(rows: Seq<TaskView>, filter: RowFilter, id: Seq<char>)
    requires
        unique_ids(rows),
    ensures
        unique_ids(rows_except(rows, filter)),
        lookup(rows_except(rows, filter), id) == match lookup(rows, id) {
            Some(old) => if filter.admits(old) {
                None
            } else {
                Some(old)
            },
            None => None,
        },
    decreases rows.len(),
{
    reveal(Seq::filter);
    if rows.len() == 0 {
        assert(rows_except(rows, filter) =~= rows);
    } else {
        let rest = rows.drop_last();
        let last = rows.last();
        assert(rest.push(last) =~= rows);
        lemma_rows_where_push(rest, last, filter);
        assert forall|i: int, j: int| 0 <= i < j < rest.len() implies rest[i].id
            != rest[j].id by {
            assert(rows[i].id != rows[j].id);
        }
        lemma_lookup_rows_except(rest, filter, id);
        lemma_lookup_rows_except(rest, filter, last.id);
        let kept = rows_except(rest, filter);
        // The last row's id occurs nowhere in the rest.
        assert(!holds_id(rest, last.id)) by {
            if holds_id(rest, last.id) {
                let i = row_index(rest, last.id);
                assert(rows[i].id != rows[rows.len() - 1].id);
            }
        }
        assert(lookup(kept, last.id) is None);
        if id == last.id {
            lemma_row_index(rows, rows.len() - 1);
            if !filter.admits(last) {
                let after = kept.push(last);
                assert(unique_ids(after)) by {
                    assert forall|i: int, j: int| 0 <= i < j < after.len() implies after[i].id
                        != after[j].id by {
                        if j == kept.len() {
                            assert(kept[i].id != last.id) by {
                                if kept[i].id == last.id {
                                    assert(holds_id(kept, last.id));
                                }
                            }
                        }
                    }
                }
                lemma_row_index(after, kept.len() as int);
            }
        } else {
            // Reads of other ids do not see the last row.
            assert(lookup(rows, id) == lookup(rest, id)) by {
                if holds_id(rest, id) {
                    let i = row_index(rest, id);
                    assert(rows[i] == rest[i]);
                    lemma_row_index(rows, i);
                } else if holds_id(rows, id) {
                    let i = row_index(rows, id);
                    if i < rest.len() {
                        assert(rest[i].id == id);
                    }
                }
            }
            if !filter.admits(last) {
                let after = kept.push(last);
                assert(unique_ids(after)) by {
                    assert forall|i: int, j: int| 0 <= i < j < after.len() implies after[i].id
                        != after[j].id by {
                        if j == kept.len() {
                            assert(kept[i].id != last.id) by {
                                if kept[i].id == last.id {
                                    assert(holds_id(kept, last.id));
                                }
                            }
                        }
                    }
                }
                assert(lookup(after, id) == lookup(kept, id)) by {
                    if holds_id(kept, id) {
                        let i = row_index(kept, id);
                        assert(after[i] == kept[i]);
                        lemma_row_index(after, i);
                    } else if holds_id(after, id) {
                        let i = row_index(after, id);
                        if i < kept.len() {
                            assert(kept[i].id == id);
                        }
                    }
                }
            }
        }
    }
}

/// Law of the claim: a task that is being processed is not handed out by a
/// claim, however many rows the claim may take.
pub proof fn lemma_processing_is_not_claimable(
    rows: Seq<TaskView>,
    kind: TaskType,
    limit: int,
    id: Seq<char>,
    j: int,
)
    requires
        unique_ids(rows),
        lookup(rows, id) matches Some(t) && !(t.status is Pending),
        0 <= j < claimable(rows, kind, limit).len(),
    ensures
        claimable(rows, kind, limit)[j].id != id,
{
    let filter = RowFilter::Waiting(Some(kind));
    let waiting = sorted_by(rows_where(rows, filter), RowOrder::Urgency);
    assert(claimable(rows, kind, limit)[j] == waiting[j]);
    lemma_sorted_rows_are_rows(rows, filter, RowOrder::Urgency, j);
    let k = choose|k: int| 0 <= k < rows.len() && rows[k] == waiting[j];
    lemma_row_index(rows, k);
}

/// Law of the claim: the rows of a claim are set to Processing, so that a
/// second claim on the table hands out none of them again.
pub proof fn lemma_no_row_is_claimed_twice(
    rows: Seq<TaskView>,
    kind: TaskType,
    limit: int,
    now: i64,
    i: int,
    again: int,
    j: int,
)
    requires
        unique_ids(rows),
        0 <= i < claimable(rows, kind, limit).len(),
        0 <= j < claimable(marked(rows, claimable(rows, kind, limit), now), kind, again).len(),
    ensures
        unique_ids(marked(rows, claimable(rows, kind, limit), now)),
        claimable(marked(rows, claimable(rows, kind, limit), now), kind, again)[j].id
            != claimable(rows, kind, limit)[i].id,
{
    let chosen = claimable(rows, kind, limit);
    let filter = RowFilter::Waiting(Some(kind));
    assert forall|k: int| 0 <= k < chosen.len() implies holds_id(rows, (#[trigger] chosen[k]).id) by {
        let waiting = sorted_by(rows_where(rows, filter), RowOrder::Urgency);
        assert(chosen[k] == waiting[k]);
        lemma_sorted_rows_are_rows(rows, filter, RowOrder::Urgency, k);
        let m = choose|m: int| 0 <= m < rows.len() && rows[m] == waiting[k];
        lemma_row_index(rows, m);
    }
    lemma_marked_rows(rows, chosen, now, chosen[i].id);
    assert(chosen.contains(chosen[i]));
    lemma_processing_is_not_claimable(marked(rows, chosen, now), kind, again, chosen[i].id, j);
}

/// After the `chosen` rows were set to Processing, each of them that the
/// table holds is being processed, and every other row is as it was.
pub proof fn lemma_marked_rows(rows: Seq<TaskView>, chosen: Seq<TaskView>, now: i64, id: Seq<char>)
    requires
        unique_ids(rows),
    ensures
        unique_ids(marked(rows, chosen, now)),
        holds_id(marked(rows, chosen, now), id) == holds_id(rows, id),
        (exists|k: int| 0 <= k < chosen.len() && (#[trigger] chosen[k]).id == id) ==> (lookup(
            marked(rows, chosen, now),
            id,
        ) matches Some(t) ==> t.status is Processing),
        !(exists|k: int| 0 <= k < chosen.len() && (#[trigger] chosen[k]).id == id) ==> lookup(
            marked(rows, chosen, now),
            id,
        ) == lookup(rows, id),
    decreases chosen.len(),
{
    if chosen.len() > 0 {
        let rest = chosen.drop_last();
        let last = chosen[chosen.len() - 1];
        lemma_marked_rows(rows, rest, now, id);
        let mid = marked(rows, rest, now);
        lemma_lookup_with_row_status(mid, last.id, TaskStatusView::Processing, now, id);
        if exists|k: int| 0 <= k < chosen.len() && (#[trigger] chosen[k]).id == id {
            let k = choose|k: int| 0 <= k < chosen.len() && (#[trigger] chosen[k]).id == id;
            if k < rest.len() {
                assert(rest[k].id == id);
            }
        } else {
            assert forall|k: int| 0 <= k < rest.len() implies (#[trigger] rest[k]).id != id by {
                assert(rest[k] == chosen[k]);
            }
            assert(last.id != id);
        }
    }
}

/// Law of the serving order: a claim takes the front of the order. A
/// pending row of the kind that is left behind is not served before any row
/// that the claim takes.
pub proof fn lemma_claim_takes_the_front(
    rows: Seq<TaskView>,
    kind: TaskType,
    limit: int,
    i: int,
    j: int,
)
    requires
        0 <= i < claimable(rows, kind, limit).len(),
        claimable(rows, kind, limit).len() <= j < rows_where(
            rows,
            RowFilter::Waiting(Some(kind)),
        ).len(),
    ensures
        RowOrder::Urgency.le(
            claimable(rows, kind, limit)[i],
            sorted_by(rows_where(rows, RowFilter::Waiting(Some(kind))), RowOrder::Urgency)[j],
        ),
{
    let waiting = rows_where(rows, RowFilter::Waiting(Some(kind)));
    lemma_sorted_by(waiting, RowOrder::Urgency);
    assert(claimable(rows, kind, limit)[i] == sorted_by(waiting, RowOrder::Urgency)[i]);
}

/// What a task keeps for life: its id, its creation time, its kind of task,
/// and its start time and its completion time once they are set.
pub open spec fn keeps_its_marks(before: TaskView, after: TaskView) -> bool {
    &&& after.id == before.id
    &&& after.created_at == before.created_at
    &&& after.config.task_type == before.config.task_type
    &&& before.started_at is Some ==> after.started_at == before.started_at
    &&& before.completed_at is Some ==> after.completed_at == before.completed_at
}

/// Every row is in its place and keeps what a task keeps for life, with its
/// status as before or one edge of the state machine further.
pub open spec fn stepped(before: Seq<TaskView>, after: Seq<TaskView>) -> bool {
    &&& after.len() == before.len()
    &&& forall|i: int|
        0 <= i < before.len() ==> {
            &&& keeps_its_marks(before[i], #[trigger] after[i])
            &&& (after[i].status == before[i].status || before[i].status.may_become(
                after[i].status,
            ))
        }
}

/// Every row is in its place and keeps what a task keeps for life, with a
/// status that its status before can reach: a task in a terminal state is
/// in that state still.
pub open spec fn moved_on(before: Seq<TaskView>, after: Seq<TaskView>) -> bool {
    &&& after.len() == before.len()
    &&& forall|i: int|
        0 <= i < before.len() ==> {
            &&& keeps_its_marks(before[i], #[trigger] after[i])
            &&& before[i].status.can_reach(after[i].status)
        }
}

/// Law of the lifecycle: one step is a move, a table has moved on from
/// itself, and moves follow one another to a move.
pub proof fn lemma_moved_on(first: Seq<TaskView>, second: Seq<TaskView>, third: Seq<TaskView>)
    ensures
        moved_on(first, first),
        stepped(first, second) ==> moved_on(first, second),
        moved_on(first, second) && moved_on(second, third) ==> moved_on(first, third),
{
    if stepped(first, second) {
        assert forall|i: int| 0 <= i < first.len() implies first[i].status.can_reach(
            (#[trigger] second[i]).status,
        ) by {
            crate::schedule::types::lemma_can_reach(
                first[i].status,
                second[i].status,
                second[i].status,
            );
        }
    }
    if moved_on(first, second) && moved_on(second, third) {
        assert forall|i: int| 0 <= i < first.len() implies {
            &&& keeps_its_marks(first[i], #[trigger] third[i])
            &&& first[i].status.can_reach(third[i].status)
        } by {
            assert(keeps_its_marks(first[i], second[i]));
            assert(keeps_its_marks(second[i], third[i]));
            crate::schedule::types::lemma_can_reach(
                first[i].status,
                second[i].status,
                third[i].status,
            );
        }
    }
}

/// Changing the status of one row along an edge of the state machine is a
/// step of the table.
pub proof fn lemma_row_status_steps(
    rows: Seq<TaskView>,
    id: Seq<char>,
    status: TaskStatusView,
    now: i64,
)
    requires
        lookup(rows, id) matches Some(t) ==> t.status == status || t.status.may_become(status),
    ensures
        stepped(rows, with_row_status(rows, id, status, now)),
{
}

/// Changing the status of the rows that a filter admits is a step of the
/// table when the new status is an edge away from each of them.
pub proof fn lemma_rows_marked_step(
    rows: Seq<TaskView>,
    filter: RowFilter,
    status: TaskStatusView,
    now: i64,
)
    requires
        forall|i: int|
            0 <= i < rows.len() && filter.admits(#[trigger] rows[i]) ==> rows[i].status
                == status || rows[i].status.may_become(status),
    ensures
        stepped(rows, rows_marked(rows, filter, status, now)),
{
}

/// Overwriting a row with a task of its own id is a step of the table when
/// the task's status is an edge away from the row's, or the same, and the
/// task keeps what the row has for life.
pub proof fn lemma_upsert_steps(rows: Seq<TaskView>, task: TaskView)
    requires
        lookup(rows, task.id) matches Some(t) && (t.status == task.status || t.status.may_become(
            task.status,
        )) && keeps_its_marks(t, task),
    ensures
        stepped(rows, upserted(rows, task)),
{
}

/// The times of every row are in order, and no row was updated after
/// `now`.
pub open spec fn in_order_until(rows: Seq<TaskView>, now: i64) -> bool {
    forall|i: int|
        0 <= i < rows.len() ==> (#[trigger] rows[i]).time_ordered() && rows[i].updated_at <= now
}

/// Law of the clock: while no status is set at an instant that lies behind
/// an update on record, the times of every row stay in order: no start and
/// no end lies after the last update. This holds for a change of one row
/// and for a change of all the rows that a filter admits.
pub proof fn lemma_status_changes_keep_order(
    rows: Seq<TaskView>,
    id: Seq<char>,
    filter: RowFilter,
    status: TaskStatusView,
    now: i64,
)
    requires
        in_order_until(rows, now),
    ensures
        in_order_until(with_row_status(rows, id, status, now), now),
        in_order_until(rows_marked(rows, filter, status, now), now),
{
    let one = with_row_status(rows, id, status, now);
    assert forall|i: int| 0 <= i < one.len() implies (#[trigger] one[i]).time_ordered()
        && one[i].updated_at <= now by {
        assert(rows[i].time_ordered());
    }
    let all = rows_marked(rows, filter, status, now);
    assert forall|i: int| 0 <= i < all.len() implies (#[trigger] all[i]).time_ordered()
        && all[i].updated_at <= now by {
        assert(rows[i].time_ordered());
    }
}

/// Law of the clock for a write: a task whose own times are in order, and
/// that was not updated before the row it replaces was created, leaves the
/// times of every row in order.
pub proof fn lemma_upsert_keeps_order(rows: Seq<TaskView>, task: TaskView, now: i64)
    requires
        in_order_until(rows, now),
        task.time_ordered(),
        task.updated_at <= now,
        lookup(rows, task.id) matches Some(t) ==> t.created_at <= task.updated_at,
    ensures
        in_order_until(upserted(rows, task), now),
{
    let after = upserted(rows, task);
    assert forall|i: int| 0 <= i < after.len() implies (#[trigger] after[i]).time_ordered()
        && after[i].updated_at <= now by {
        if i < rows.len() {
            assert(rows[i].time_ordered());
        }
    }
}

/// Law of the clock for a new row: a task whose own times are in order
/// leaves the times of every row in order.
pub proof fn lemma_new_row_keeps_order(rows: Seq<TaskView>, task: TaskView, now: i64)
    requires
        in_order_until(rows, now),
        task.time_ordered(),
        task.updated_at <= now,
    ensures
        in_order_until(rows.push(task), now),
{
    let more = rows.push(task);
    assert forall|i: int| 0 <= i < more.len() implies (#[trigger] more[i]).time_ordered()
        && more[i].updated_at <= now by {
        if i < rows.len() {
            assert(rows[i].time_ordered());
        }
    }
}

/// Law of the clock for a removal: a table without the rows that a filter
/// admits keeps the times of every row in order.
pub proof fn lemma_removal_keeps_order(rows: Seq<TaskView>, filter: RowFilter, now: i64)
    requires
        in_order_until(rows, now),
    ensures
        in_order_until(rows_except(rows, filter), now),
    decreases rows.len(),
{
    if rows.len() > 0 {
        let rest = rows.drop_last();
        let last = rows.last();
        assert(rest.push(last) =~= rows);
        assert forall|i: int| 0 <= i < rest.len() implies (#[trigger] rest[i]).time_ordered()
            && rest[i].updated_at <= now by {
            assert(rows[i].time_ordered());
        }
        lemma_removal_keeps_order(rest, filter, now);
        lemma_rows_where_push(rest, last, filter);
        if !filter.admits(last) {
            lemma_new_row_keeps_order(rows_except(rest, filter), last, now);
        }
    } else {
        reveal(Seq::filter);
        assert(rows_except(rows, filter) =~= rows);
    }
}

/// The in-memory task table.
pub struct TaskStorage {
    rows: Vec<Task>,
}

impl View for TaskStorage {
    type V = Seq<TaskView>;

    closed spec fn view(&self) -> Seq<TaskView> {
        self.rows.deep_view()
    }
}

impl TaskStorage {
    /// The table's invariant: ids are unique.
    pub open spec fn wf(&self) -> bool {
        unique_ids(self@)
    }

    /// An empty table.
    pub fn new() -> (r: Self)
        ensures
            r@ == Seq::<TaskView>::empty(),
            r.wf(),
    {
        let r = TaskStorage { rows: Vec::new() };
        assert(r.rows.deep_view() =~= Seq::<TaskView>::empty());
        r
    }

    /// Number of rows.
    pub fn len(&self) -> (r: usize)
        ensures
            r == self@.len(),
    {
        self.rows.len()
    }

    /// Place of the row `id`, if there is one.
    fn find(&self, id: &str) -> (r: Option<usize>)
        requires
            self.wf(),
        ensures
            r is Some == holds_id(self@, id@),
            r matches Some(i) ==> i < self.rows.len() && i == row_index(self@, id@)
                && self.rows[i as int]@ == self@[i as int],
    {
        let mut i: usize = 0;
        while i < self.rows.len()
            invariant
                i <= self.rows.len(),
                self.wf(),
                forall|j: int| 0 <= j < i ==> self@[j].id != id@,
            decreases self.rows.len() - i,
        {
            if str_eq(self.rows[i].id.as_str(), id) {
                proof {
                    assert(self@[i as int].id == id@);
                    lemma_row_index(self@, i as int);
                }
                return Some(i);
            }
            i = i + 1;
        }
        None
    }

    /// Reads the row `id`.
    pub fn get(&self, task_id: &str) -> (r: Option<Task>)
        requires
            self.wf(),
        ensures
            r.deep_view() == lookup(self@, task_id@),
    {
        match self.find(task_id) {
            Some(i) => Some(self.rows[i].clone()),
            None => None,
        }
    }

    /// Writes `task`: inserts it, or replaces the row that has its `id`
    /// while keeping that row's creation time.
    pub fn create(&mut self, task: &Task)
        requires
            old(self).wf(),
        ensures
            final(self)@ == upserted(old(self)@, task@),
            final(self).wf(),
            all_valid(old(self)@) && task@.valid() ==> all_valid(final(self)@),
    {
        let ghost before = self@;
        match self.find(task.id.as_str()) {
            Some(i) => {
                let mut row = task.clone();
                row.id = self.rows[i].id.clone();
                row.created_at = self.rows[i].created_at;
                assert(row@ == merged(before[i as int], task@));
                self.rows.set(i, row);
                assert(self@ =~= before.update(i as int, merged(before[i as int], task@)));
            },
            None => {
                self.rows.push(task.clone());
                assert(self@ =~= before.push(task@));
            },
        }
    }

    /// Sets the status of the row `id` at the instant `now`.
    pub fn update_at(&mut self, task_id: &str, status: &TaskStatus, now: i64)
        requires
            old(self).wf(),
        ensures
            final(self)@ == with_row_status(old(self)@, task_id@, status@, now),
            final(self).wf(),
            all_valid(old(self)@) && !(status@ is Completed) ==> all_valid(final(self)@),
    {
        let ghost before = self@;
        match self.find(task_id) {
            Some(i) => {
                let mut row = self.rows[i].clone();
                row.set_status(status.clone(), now);
                self.rows.set(i, row);
                assert(self@ =~= before.update(i as int, before[i as int].with_status(status@, now)));
            },
            None => {},
        }
    }

    /// Sets the status of the row `id` at the current time. Whatever the
    /// clock reads, the row is updated as `update_at` does for that reading.
    pub fn update(&mut self, task_id: &str, status: &TaskStatus)
        requires
            old(self).wf(),
        ensures
            exists|now: i64| final(self)@ == with_row_status(old(self)@, task_id@, status@, now),
            final(self).wf(),
            all_valid(old(self)@) && !(status@ is Completed) ==> all_valid(final(self)@),
    {
        let now = now_millis();
        self.update_at(task_id, status, now);
    }

    /// Removes the row `id`.
    pub fn delete(&mut self, task_id: &str)
        requires
            old(self).wf(),
        ensures
            final(self)@ == without_row(old(self)@, task_id@),
            final(self).wf(),
            all_valid(old(self)@) ==> all_valid(final(self)@),
    {
        let ghost before = self@;
        match self.find(task_id) {
            Some(i) => {
                self.rows.remove(i);
                assert(self@ =~= before.remove(i as int));
            },
            None => {},
        }
    }
    /// The rows that `filter` admits, in the order `order`.
    fn sorted_where(&self, filter: &RowFilter, order: RowOrder) -> (r: Vec<Task>)
        ensures
            r.deep_view() == sorted_by(rows_where(self@, *filter), order),
    {
        let mut out: Vec<Task> = Vec::new();
        let mut i: usize = 0;
        proof {
            assert(self@.subrange(0, 0) =~= Seq::<TaskView>::empty());
            reveal(Seq::filter);
            assert(out.deep_view() =~= Seq::<TaskView>::empty());
        }
        while i < self.rows.len()
            invariant
                i <= self.rows.len(),
                out.deep_view() == sorted_by(rows_where(self@.subrange(0, i as int), *filter), order),
            decreases self.rows.len() - i,
        {
            proof {
                let prev = self@.subrange(0, i as int);
                assert(self@.subrange(0, i + 1) =~= prev.push(self@[i as int]));
                lemma_rows_where_push(prev, self@[i as int], *filter);
                let kept = rows_where(prev, *filter);
                assert(kept.push(self@[i as int]).drop_last() =~= kept);
            }
            if filter.test(&self.rows[i]) {
                insert_sorted(&mut out, self.rows[i].clone(), order);
            }
            i = i + 1;
        }
        assert(self@.subrange(0, i as int) =~= self@);
        out
    }

    /// The rows that `filter` admits, in table order.
    fn filtered(&self, filter: &RowFilter) -> (r: Vec<Task>)
        ensures
            r.deep_view() == rows_where(self@, *filter),
    {
        let mut out: Vec<Task> = Vec::new();
        let mut i: usize = 0;
        proof {
            assert(self@.subrange(0, 0) =~= Seq::<TaskView>::empty());
            reveal(Seq::filter);
            assert(out.deep_view() =~= Seq::<TaskView>::empty());
        }
        while i < self.rows.len()
            invariant
                i <= self.rows.len(),
                out.deep_view() == rows_where(self@.subrange(0, i as int), *filter),
            decreases self.rows.len() - i,
        {
            proof {
                let prev = self@.subrange(0, i as int);
                assert(self@.subrange(0, i + 1) =~= prev.push(self@[i as int]));
                lemma_rows_where_push(prev, self@[i as int], *filter);
            }
            if filter.test(&self.rows[i]) {
                let ghost before = out.deep_view();
                out.push(self.rows[i].clone());
                assert(out.deep_view() =~= before.push(self@[i as int]));
            }
            i = i + 1;
        }
        assert(self@.subrange(0, i as int) =~= self@);
        out
    }

    /// Removes the rows that `filter` admits and returns how many they were.
    fn remove_where(&mut self, filter: &RowFilter) -> (r: usize)
        requires
            old(self).wf(),
        ensures
            final(self)@ == rows_except(old(self)@, *filter),
            r == old(self)@.len() - final(self)@.len(),
            final(self).wf(),
            all_valid(old(self)@) ==> all_valid(final(self)@),
    {
        let ghost before = self@;
        let mut kept: usize = 0;
        let mut removed: usize = 0;
        proof {
            assert(before.len() == self.rows.len());
            assert(before.subrange(0, 0) =~= Seq::<TaskView>::empty());
            reveal(Seq::filter);
            assert(self@.subrange(0, 0) =~= rows_except(before.subrange(0, 0), *filter));
        }
        while kept < self.rows.len()
            invariant
                kept <= self.rows.len(),
                before.len() <= usize::MAX,
                self@.len() + removed == before.len(),
                self@.subrange(0, kept as int) == rows_except(
                    before.subrange(0, kept + removed),
                    *filter,
                ),
                forall|k: int| kept <= k < self@.len() ==> #[trigger] self@[k] == before[k + removed],
                unique_ids(self@),
                all_valid(before) ==> all_valid(self@),
            decreases self.rows.len() - kept,
        {
            let ghost now = self@;
            let ghost seen = before.subrange(0, kept + removed);
            proof {
                assert(now[kept as int] == before[kept + removed]);
                assert(before.subrange(0, kept + removed + 1) =~= seen.push(before[kept + removed]));
                lemma_rows_where_push(seen, before[kept + removed], *filter);
            }
            if filter.test(&self.rows[kept]) {
                self.rows.remove(kept);
                removed = removed + 1;
                proof {
                    assert(self@ =~= now.remove(kept as int));
                    assert(self@.subrange(0, kept as int) =~= now.subrange(0, kept as int));
                    assert forall|k: int| kept <= k < self@.len() implies #[trigger] self@[k]
                        == before[k + removed] by {
                        assert(self@[k] == now[k + 1]);
                    }
                    assert forall|i: int, j: int| 0 <= i < j < self@.len() implies self@[i].id
                        != self@[j].id by {
                        let a = if i < kept { i } else { i + 1 };
                        let b = if j < kept { j } else { j + 1 };
                        assert(now[a].id != now[b].id);
                    }
                    if all_valid(before) {
                        assert forall|i: int| 0 <= i < self@.len() implies (
                        #[trigger] self@[i]).valid() by {
                            let a = if i < kept { i } else { i + 1 };
                            assert(now[a].valid());
                        }
                    }
                }
            } else {
                kept = kept + 1;
                proof {
                    assert(self@.subrange(0, kept as int) =~= now.subrange(0, kept - 1).push(
                        now[kept - 1],
                    ));
                }
            }
        }
        proof {
            assert(self@.subrange(0, kept as int) =~= self@);
            assert(before.subrange(0, kept + removed) =~= before);
        }
        removed
    }

    /// One page of the table, oldest row first.
    pub fn list(&self, pagination: &Pagination) -> (r: Vec<Task>)
        ensures
            r.deep_view() == page_of(sorted_by(self@, RowOrder::Created), *pagination),
    {
        let page = pagination.check();
        let mut all = self.sorted_where(&RowFilter::All, RowOrder::Created);
        proof {
            lemma_rows_where_all(self@);
        }
        let ghost sorted = all.deep_view();
        let skip = match page.checked_offset() {
            Some(o) => o,
            None => {
                all.truncate(0);
                assert(all.deep_view() =~= Seq::<TaskView>::empty());
                return all;
            },
        };
        if skip >= all.len() as u64 {
            all.truncate(0);
            assert(all.deep_view() =~= Seq::<TaskView>::empty());
            return all;
        }
        let mut rest = all.split_off(skip as usize);
        assert(rest.deep_view() =~= sorted.subrange(skip as int, sorted.len() as int));
        let ghost tail = rest.deep_view();
        if page.size < rest.len() as u64 {
            rest.truncate(page.size as usize);
            assert(rest.deep_view() =~= tail.subrange(0, page.size as int));
        }
        rest
    }

    /// Up to `limit` pending rows, most urgent first and among equals the
    /// oldest first. The table is left as it is.
    pub fn get_pending_by_priority(&self, limit: usize) -> (r: Vec<Task>)
        ensures
            r.deep_view() == first_rows(
                sorted_by(rows_where(self@, RowFilter::Waiting(None)), RowOrder::Urgency),
                limit as int,
            ),
    {
        let mut out = self.sorted_where(&RowFilter::Waiting(None), RowOrder::Urgency);
        let ghost sorted = out.deep_view();
        if limit < out.len() {
            out.truncate(limit);
            assert(out.deep_view() =~= sorted.subrange(0, limit as int));
        }
        assert(limit == 0 ==> out.deep_view() =~= Seq::<TaskView>::empty());
        out
    }

    /// The rows being processed whose deadline lies before `now`, in table
    /// order. A row without a timeout is never among them.
    pub fn get_timeouted_at(&self, now: i64) -> (r: Vec<Task>)
        ensures
            r.deep_view() == rows_where(self@, RowFilter::Overdue(now)),
    {
        self.filtered(&RowFilter::Overdue(now))
    }

    /// The rows that are overdue at the current time. Whatever the clock
    /// reads, they are what `get_timeouted_at` gives for that reading.
    pub fn get_timeouted(&self) -> (r: Vec<Task>)
        ensures
            exists|now: i64| r.deep_view() == rows_where(self@, RowFilter::Overdue(now)),
    {
        let now = now_millis();
        self.get_timeouted_at(now)
    }

    /// Deletes the completed and failed rows last updated before `before`
    /// and returns how many were deleted.
    pub fn cleanup_old(&mut self, before: i64) -> (r: u64)
        requires
            old(self).wf(),
        ensures
            final(self)@ == rows_except(old(self)@, RowFilter::Expired(before)),
            r == old(self)@.len() - final(self)@.len(),
            final(self).wf(),
            all_valid(old(self)@) ==> all_valid(final(self)@),
    {
        let n = self.remove_where(&RowFilter::Expired(before));
        n as u64
    }

    /// The rows whose status is of the same kind as `status`, least urgent
    /// first and among equals the oldest first.
    pub fn get_by_status(&self, status: &TaskStatus) -> (r: Vec<Task>)
        ensures
            r.deep_view() == sorted_by(
                rows_where(self@, RowFilter::Kind(status@.kind())),
                RowOrder::Lenience,
            ),
    {
        self.sorted_where(&RowFilter::Kind(status.kind()), RowOrder::Lenience)
    }
    /// Claims up to `limit` pending rows of the kind `kind`, most urgent
    /// first and among equals the oldest first: each is set to Processing at
    /// `now` in the table and returned as it then stands.
    pub fn claim_next_pending(&mut self, kind: TaskType, limit: usize, now: i64) -> (r: Vec<Task>)
        requires
            old(self).wf(),
        ensures
            r.deep_view() == started(claimable(old(self)@, kind, limit as int), now),
            final(self)@ == marked(old(self)@, claimable(old(self)@, kind, limit as int), now),
            final(self)@.len() == old(self)@.len(),
            final(self).wf(),
            all_valid(old(self)@) ==> all_valid(final(self)@),
    {
        let ghost before = self@;
        let mut out = self.sorted_where(&RowFilter::Waiting(Some(kind)), RowOrder::Urgency);
        let ghost sorted = out.deep_view();
        if limit < out.len() {
            out.truncate(limit);
            assert(out.deep_view() =~= sorted.subrange(0, limit as int));
        }
        assert(limit == 0 ==> out.deep_view() =~= Seq::<TaskView>::empty());
        let ghost chosen = out.deep_view();
        assert(chosen == claimable(before, kind, limit as int));
        let mut k: usize = 0;
        assert(chosen.subrange(0, 0) =~= Seq::<TaskView>::empty());
        while k < out.len()
            invariant
                k <= out.len(),
                out.len() == chosen.len(),
                self.wf(),
                self@ == marked(before, chosen.subrange(0, k as int), now),
                self@.len() == before.len(),
                all_valid(before) ==> all_valid(self@),
                forall|j: int| k <= j < out.len() ==> out[j]@ == chosen[j],
                forall|j: int|
                    0 <= j < k ==> out[j]@ == chosen[j].with_status(TaskStatusView::Processing, now),
            decreases out.len() - k,
        {
            proof {
                let upto = chosen.subrange(0, k + 1);
                assert(upto.drop_last() =~= chosen.subrange(0, k as int));
                assert(upto.last() == chosen[k as int]);
            }
            assert(out[k as int]@ == chosen[k as int]);
            let mut task = out[k].clone();
            self.update_at(task.id.as_str(), &TaskStatus::Processing, now);
            task.set_status(TaskStatus::Processing, now);
            out.set(k, task);
            k = k + 1;
        }
        assert(chosen.subrange(0, k as int) =~= chosen);
        assert(out.deep_view() =~= started(chosen, now));
        out
    }
    /// Whether every row satisfies the task invariants.
    pub fn is_valid(&self) -> (r: bool)
        ensures
            r == all_valid(self@),
    {
        let mut i: usize = 0;
        while i < self.rows.len()
            invariant
                i <= self.rows.len(),
                forall|j: int| 0 <= j < i ==> (#[trigger] self@[j]).valid(),
            decreases self.rows.len() - i,
        {
            assert(self.rows[i as int]@ == self@[i as int]);
            if !self.rows[i].is_valid() {
                return false;
            }
            i = i + 1;
        }
        true
    }

    /// Sets every row that `filter` admits to `status` at `now` and returns
    /// how many rows that were.
    pub fn update_where(&mut self, filter: &RowFilter, status: &TaskStatus, now: i64) -> (r: usize)
        requires
            old(self).wf(),
        ensures
            final(self)@ == rows_marked(old(self)@, *filter, status@, now),
            r == rows_where(old(self)@, *filter).len(),
            final(self).wf(),
            all_valid(old(self)@) && !(status@ is Completed) ==> all_valid(final(self)@),
    {
        let ghost before = self@;
        let mut count: usize = 0;
        let mut i: usize = 0;
        proof {
            reveal(Seq::filter);
            assert(before.subrange(0, 0) =~= Seq::<TaskView>::empty());
        }
        while i < self.rows.len()
            invariant
                i <= self.rows.len(),
                self@.len() == before.len(),
                count == rows_where(before.subrange(0, i as int), *filter).len(),
                count <= i,
                forall|j: int|
                    0 <= j < i ==> #[trigger] self@[j] == rows_marked(before, *filter, status@, now)[j],
                forall|j: int| i <= j < before.len() ==> #[trigger] self@[j] == before[j],
            decreases self.rows.len() - i,
        {
            let ghost cur = self@;
            proof {
                let seen = before.subrange(0, i as int);
                assert(before.subrange(0, i + 1) =~= seen.push(before[i as int]));
                lemma_rows_where_push(seen, before[i as int], *filter);
                assert(self.rows[i as int]@ == cur[i as int]);
            }
            if filter.test(&self.rows[i]) {
                let mut row = self.rows[i].clone();
                row.set_status(status.clone(), now);
                self.rows.set(i, row);
                count = count + 1;
                assert(self@ =~= cur.update(i as int, before[i as int].with_status(status@, now)));
            }
            i = i + 1;
        }
        proof {
            assert(before.subrange(0, i as int) =~= before);
            assert(self@ =~= rows_marked(before, *filter, status@, now));
            assert forall|a: int, b: int| 0 <= a < b < self@.len() implies self@[a].id
                != self@[b].id by {
                assert(before[a].id != before[b].id);
            }
            if all_valid(before) && !(status@ is Completed) {
                assert forall|j: int| 0 <= j < self@.len() implies (#[trigger] self@[j]).valid() by {
                    assert(before[j].valid());
                }
            }
        }
        count
    }
}

} // verus!
