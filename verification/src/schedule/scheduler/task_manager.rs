//! The task manager: the registry of processors and of tasks in flight, and
//! every transition of a task's lifecycle.

use crate::clock::now_millis;
use crate::ident::fresh_uuid;
use crate::schedule::callback::{
    completion_message, failure_message, CallbackPayload, CallbackPayloadView, EventCallback,
    FunctionCallback, HttpCallback,
};
use crate::schedule::processors::TaskProcessor;
use crate::schedule::types::{
    CallbackType, CallbackTypeView, StatusKind, Task, TaskConfig, TaskConfigView, TaskPriority, TaskResult, TaskResultView, TaskStatus, TaskStatusView, TaskType, TaskView,
};
use crate::storage::task::{
    all_valid, claimable, holds_id, in_order_until, lemma_lookup_rows_except,
    lemma_lookup_rows_marked, lemma_lookup_upserted, lemma_lookup_with_row_status,
    lemma_moved_on, lemma_new_row_keeps_order, lemma_removal_keeps_order, lemma_row_index,
    lemma_row_status_steps,
    lemma_rows_marked_step, lemma_rows_where_push, lemma_sorted_rows_are_rows,
    lemma_status_changes_keep_order, lemma_sweep_twice, lemma_upsert_keeps_order,
    lemma_upsert_steps, moved_on, stepped,
    lookup, marked, page_of, row_index, rows_except, rows_marked, rows_where, sorted_by,
    started, unique_ids, upserted, with_row_status, RowFilter, RowOrder,
    TaskStorage,
};
use crate::text::{join, str_eq};
use crate::views::result_view;
use crate::web::Pagination;
use vstd::prelude::*;
use vstd::string::*;

verus! {

/// A processor and the kind of task it is bound to.
pub struct ProcessorBinding<P> {
    pub kind: TaskType,
    pub processor: P,
}

/// A task that a worker holds: its id and the instant at which it was
/// claimed.
pub struct ProcessingInfo {
    pub id: String,
    pub started_at: i64,
}

/// The mathematical view of a `ProcessingInfo`: texts are sequences of characters,
/// vectors are sequences.
pub struct ProcessingInfoView {
    pub id: Seq<char>,
    pub started_at: i64,
}

impl DeepView for ProcessingInfo {
    type V = ProcessingInfoView;

    open spec fn deep_view(&self) -> ProcessingInfoView {
        ProcessingInfoView { id: self.id@, started_at: self.started_at }
    }
}

/// Minutes after which a task in flight counts as stale.
pub const STALE_AFTER_MINUTES: i64 = 30;

/// Number of events that the manager's event channel buffers.
pub const EVENT_BUFFER: usize = 10;

impl ProcessingInfoView {
    /// A task in flight is stale at `now` when more than thirty whole
    /// minutes have passed since it was claimed.
    pub open spec fn stale_at(self, now: i64) -> bool {
        crate::clock::div_trunc(now - self.started_at, crate::clock::MILLIS_PER_MINUTE as int)
            > STALE_AFTER_MINUTES
    }
}

/// A function callback and the name it is registered under.
pub struct NamedCallback<F> {
    pub name: String,
    pub callback: FunctionCallback<F>,
}

/// Counts of tasks by status.
#[derive(Debug, Clone, Copy, PartialEq, Eq, Structural)]
pub struct TaskStats {
    pub pending: usize,
    pub processing: usize,
    pub completed: usize,
    pub failed: usize,
    pub retrying: usize,
    pub timed_out: usize,
}

impl Default for TaskStats {
    fn default() -> (r: Self)
        ensures
            r == (TaskStats {
                pending: 0,
                processing: 0,
                completed: 0,
                failed: 0,
                retrying: 0,
                timed_out: 0,
            }),
    {
        TaskStats { pending: 0, processing: 0, completed: 0, failed: 0, retrying: 0, timed_out: 0 }
    }
}

/// Counts of what a cleanup deleted.
#[derive(Debug, Clone, Copy, PartialEq, Eq, Structural)]
pub struct CleanupStats {
    pub completed: u64,
    pub failed: u64,
}

impl Default for CleanupStats {
    fn default() -> (r: Self)
        ensures
            r == (CleanupStats { completed: 0, failed: 0 }),
    {
        CleanupStats { completed: 0, failed: 0 }
    }
}

/// The task that a submission of `config` creates under the token `token`
/// at `now`: pending, never retried, with no times but creation and update.
pub open spec fn submitted(config: TaskConfigView, token: Seq<char>, now: i64) -> TaskView {
    TaskView {
        id: "task-"@ + token,
        status: TaskStatusView::Pending,
        config: TaskConfigView { retry_count: 0, ..config },
        created_at: now,
        updated_at: now,
        started_at: None,
        completed_at: None,
        result: None,
        error: None,
    }
}

/// Some entry of the registry holds this id.
pub open spec fn tracks(in_flight: Seq<ProcessingInfoView>, id: Seq<char>) -> bool {
    exists|i: int| 0 <= i < in_flight.len() && (#[trigger] in_flight[i]).id == id
}

/// Which entries of the registry a pruning drops.
pub enum Dropped {
    /// The entry of one task.
    Task(Seq<char>),
    /// The entries of tasks that the table no longer holds as being
    /// processed.
    Settled(Seq<TaskView>),
    /// The entries that are stale at an instant.
    Stale(i64),
}

impl Dropped {
    /// Whether the pruning drops the entry.
    pub open spec fn drops(self, e: ProcessingInfoView) -> bool {
        match self {
            Dropped::Task(id) => e.id == id,
            Dropped::Settled(rows) => !(lookup(rows, e.id) matches Some(t) && t.status
                is Processing),
            Dropped::Stale(now) => e.stale_at(now),
        }
    }
}

/// The registry after a pruning: the entries that it does not drop, in
/// order.
pub open spec fn pruned(in_flight: Seq<ProcessingInfoView>, what: Dropped) -> Seq<
    ProcessingInfoView,
> {
    in_flight.filter(|e: ProcessingInfoView| !what.drops(e))
}

/// The task after it failed with `error` at `now`: marked for a retry, with
/// one retry more, while retries are left; failed with the error otherwise.
pub open spec fn after_failure(t: TaskView, error: Seq<char>, now: i64) -> TaskView {
    if t.config.retry_count < t.config.max_retries {
        TaskView {
            config: TaskConfigView {
                retry_count: (t.config.retry_count + 1) as u32,
                ..t.config
            },
            ..t.with_status(TaskStatusView::Retrying, now)
        }
    } else {
        t.with_status(TaskStatusView::Failed(error), now)
    }
}

/// The task after it completed with `result` at `now`.
pub open spec fn after_success(t: TaskView, result: TaskResultView, now: i64) -> TaskView {
    TaskView { result: Some(result), ..t.with_status(TaskStatusView::Completed, now) }
}

/// The task `id` is in the table and being processed.
pub open spec fn processing(rows: Seq<TaskView>, id: Seq<char>) -> bool {
    lookup(rows, id) matches Some(t) && t.status is Processing
}

/// The table after every stale task in flight was timed out at `now`, one
/// entry of the registry after the other.
pub open spec fn stale_timed_out(
    rows: Seq<TaskView>,
    in_flight: Seq<ProcessingInfoView>,
    now: i64,
) -> Seq<TaskView>
    decreases in_flight.len(),
{
    if in_flight.len() == 0 {
        rows
    } else {
        let rest = stale_timed_out(rows, in_flight.drop_last(), now);
        if in_flight.last().stale_at(now) {
            with_row_status(rest, in_flight.last().id, TaskStatusView::TimedOut, now)
        } else {
            rest
        }
    }
}

/// Timing out the stale tasks in flight leaves every task that is not one of
/// them as it is.
pub proof fn lemma_stale_timed_out(
    rows: Seq<TaskView>,
    in_flight: Seq<ProcessingInfoView>,
    now: i64,
    id: Seq<char>,
)
    requires
        unique_ids(rows),
        forall|j: int|
            0 <= j < in_flight.len() && (#[trigger] in_flight[j]).stale_at(now) ==> in_flight[j].id
                != id,
    ensures
        unique_ids(stale_timed_out(rows, in_flight, now)),
        lookup(stale_timed_out(rows, in_flight, now), id) == lookup(rows, id),
    decreases in_flight.len(),
{
    if in_flight.len() > 0 {
        let rest = in_flight.drop_last();
        assert forall|j: int| 0 <= j < rest.len() && (#[trigger] rest[j]).stale_at(
            now,
        ) implies rest[j].id != id by {
            assert(rest[j] == in_flight[j]);
        }
        lemma_stale_timed_out(rows, rest, now, id);
        let last = in_flight[in_flight.len() - 1];
        if last.stale_at(now) {
            lemma_lookup_with_row_status(
                stale_timed_out(rows, rest, now),
                last.id,
                TaskStatusView::TimedOut,
                now,
                id,
            );
        }
    }
}

/// Number of rows whose status is of the kind `kind`.
pub open spec fn count_of(rows: Seq<TaskView>, kind: StatusKind) -> int {
    rows_where(rows, RowFilter::Kind(kind)).len() as int
}

/// The counts by status of the given rows.
pub open spec fn tally(rows: Seq<TaskView>) -> TaskStats {
    TaskStats {
        pending: count_of(rows, StatusKind::Pending) as usize,
        processing: count_of(rows, StatusKind::Processing) as usize,
        completed: count_of(rows, StatusKind::Completed) as usize,
        failed: count_of(rows, StatusKind::Failed) as usize,
        retrying: count_of(rows, StatusKind::Retrying) as usize,
        timed_out: count_of(rows, StatusKind::TimedOut) as usize,
    }
}

/// The instant before which finished tasks are swept when tasks are kept
/// for `retention_days` days: that many days before `now`, kept within the
/// machine word.
pub open spec fn retention_cutoff(now: i64, retention_days: i64) -> i64 {
    let at = now - retention_days * crate::clock::MILLIS_PER_DAY;
    if at < i64::MIN {
        i64::MIN
    } else if at > i64::MAX {
        i64::MAX
    } else {
        at as i64
    }
}

/// Law of the clock for the tasks in flight that are given up: timing them
/// out at an instant that is not behind an update on record keeps the times
/// of every row in order.
pub proof fn lemma_stale_keeps_order(
    rows: Seq<TaskView>,
    in_flight: Seq<ProcessingInfoView>,
    now: i64,
)
    requires
        in_order_until(rows, now),
    ensures
        in_order_until(stale_timed_out(rows, in_flight, now), now),
    decreases in_flight.len(),
{
    if in_flight.len() > 0 {
        lemma_stale_keeps_order(rows, in_flight.drop_last(), now);
        lemma_status_changes_keep_order(
            stale_timed_out(rows, in_flight.drop_last(), now),
            in_flight.last().id,
            RowFilter::All,
            TaskStatusView::TimedOut,
            now,
        );
    }
}

/// The task with another priority, as of `now`.
pub open spec fn reprioritized(t: TaskView, priority: TaskPriority, now: i64) -> TaskView {
    TaskView { config: TaskConfigView { priority: priority, ..t.config }, updated_at: now, ..t }
}

/// An HTTP callback that is due: where to post, and what.
#[derive(Debug, PartialEq, Eq)]
pub struct HttpDelivery {
    pub url: String,
    pub payload: CallbackPayload,
}

/// The mathematical view of a `HttpDelivery`: texts are sequences of characters,
/// vectors are sequences.
pub struct HttpDeliveryView {
    pub url: Seq<char>,
    pub payload: CallbackPayloadView,
}

impl DeepView for HttpDelivery {
    type V = HttpDeliveryView;

    open spec fn deep_view(&self) -> HttpDeliveryView {
        HttpDeliveryView { url: self.url@, payload: self.payload@ }
    }
}

/// What the status of a task gives to report.
pub enum Report {
    /// The task is not in a state that is reported.
    Nothing,
    /// The task completed with this result.
    Outcome(TaskResultView),
    /// The task failed with this message.
    Error(Seq<char>),
    /// The task is marked completed but has no result.
    Broken,
}

/// What there is to report of a task: the result of a completed task, the
/// message of a failed one, nothing in any other state.
pub open spec fn report_of(task: TaskView) -> Report {
    match task.status {
        TaskStatusView::Completed => match task.result {
            Some(r) => Report::Outcome(r),
            None => Report::Broken,
        },
        TaskStatusView::Failed(e) => Report::Error(e),
        _ => Report::Nothing,
    }
}

/// The HTTP callback that is due for a task whose callback goes to `url`.
pub open spec fn http_delivery(task: TaskView, url: Seq<char>) -> Option<HttpDeliveryView> {
    match report_of(task) {
        Report::Outcome(r) => Some(
            HttpDeliveryView {
                url: url,
                payload: CallbackPayloadView {
                    task_id: task.id,
                    status: TaskStatusView::Completed,
                    data: crate::schedule::callback::CallbackDataView::Outcome(r),
                },
            },
        ),
        Report::Error(e) => Some(
            HttpDeliveryView {
                url: url,
                payload: CallbackPayloadView {
                    task_id: task.id,
                    status: TaskStatusView::Failed(e),
                    data: crate::schedule::callback::CallbackDataView::Error(e),
                },
            },
        ),
        _ => None,
    }
}

/// The answer of a function callback as the answer of the report: success
/// with nothing left to deliver, or the function's error.
pub open spec fn forwarded(answer: Result<(), String>) -> Result<Option<HttpDelivery>, String> {
    match answer {
        Ok(()) => Ok(None),
        Err(m) => Err(m),
    }
}

fn forward(answer: Result<(), String>) -> (r: Result<Option<HttpDelivery>, String>)
    ensures
        r == forwarded(answer),
{
    match answer {
        Ok(()) => Ok(None),
        Err(m) => Err(m),
    }
}

/// Law of the retries: a failure never takes the retries made beyond the
/// retries allowed. While retries are left the task is marked for a retry
/// and has one retry more; once the retries made equal the retries allowed,
/// the next failure ends the task as failed.
pub proof fn lemma_failure_keeps_retry_bound(t: TaskView, error: Seq<char>, now: i64)
    requires
        t.valid(),
    ensures
        after_failure(t, error, now).valid(),
        after_failure(t, error, now).config.retry_count <= t.config.max_retries,
        after_failure(t, error, now).config.max_retries == t.config.max_retries,
        t.config.retry_count < t.config.max_retries ==> after_failure(t, error, now).status
            is Retrying && after_failure(t, error, now).config.retry_count == t.config.retry_count
            + 1,
        t.config.retry_count == t.config.max_retries ==> after_failure(t, error, now).status
            == TaskStatusView::Failed(error) && after_failure(t, error, now).config.retry_count
            == t.config.retry_count,
{
}

/// Law of the cleanup: a second cleanup at the same instant and with the
/// same retention finds nothing to delete and leaves the table as it is.
pub proof fn lemma_cleanup_twice(rows: Seq<TaskView>, retention_days: i64, now: i64)
    ensures
        rows_except(
            rows_except(rows, RowFilter::Expired(retention_cutoff(now, retention_days))),
            RowFilter::Expired(retention_cutoff(now, retention_days)),
        ) == rows_except(rows, RowFilter::Expired(retention_cutoff(now, retention_days))),
{
    lemma_sweep_twice(rows, RowFilter::Expired(retention_cutoff(now, retention_days)));
}

/// `kind` is a kind of task that the processor may name as its own.
pub open spec fn names_kind<P: TaskProcessor>(processor: P, kind: TaskType) -> bool {
    call_ensures(P::task_type, (&processor,), kind)
}

/// `validation` is an answer that the processor may give when it checks
/// the parameters.
pub open spec fn checks<P: TaskProcessor>(
    processor: P,
    params: crate::schedule::types::TaskParams,
    validation: Result<(), String>,
) -> bool {
    call_ensures(P::validate_params, (&processor, &params), validation)
}

/// `outcome` is an answer that the processor may give when it runs the
/// task.
pub open spec fn runs<P: TaskProcessor>(
    processor: P,
    task: Task,
    outcome: Result<TaskResult, String>,
) -> bool {
    call_ensures(P::process, (&processor, &task), outcome)
}

/// What a submission answers: that no processor is bound to the kind of
/// task; else the processor's refusal of the parameters; else that the id is
/// taken; else the task that is stored.
pub open spec fn created(
    served: bool,
    taken: bool,
    config: TaskConfigView,
    validation: Result<(), String>,
    token: Seq<char>,
    now: i64,
) -> Result<TaskView, Seq<char>> {
    if !served {
        Err("No processor found for task type: "@ + config.task_type.text())
    } else if validation is Err {
        Err(validation->Err_0@)
    } else if taken {
        Err("Task id already in use"@)
    } else {
        Ok(submitted(config, token, now))
    }
}

/// The task manager.
pub struct TaskManager<P, F> {
    storage: TaskStorage,
    processors: Vec<ProcessorBinding<P>>,
    processing_tasks: Vec<ProcessingInfo>,
    function_callbacks: Vec<NamedCallback<F>>,
    event_callback: EventCallback,
}

impl<P: TaskProcessor, F: Fn(&Task, &str) -> Result<(), String>> TaskManager<P, F> {
    /// The rows of the task table.
    pub closed spec fn tasks(&self) -> Seq<TaskView> {
        self.storage@
    }

    /// The tasks in flight, in the order in which they were claimed.
    pub closed spec fn in_flight(&self) -> Seq<ProcessingInfoView> {
        self.processing_tasks.deep_view()
    }

    /// A processor is bound to `kind`.
    pub closed spec fn serves(&self, kind: TaskType) -> bool {
        exists|i: int| 0 <= i < self.processors@.len() && (#[trigger] self.processors@[i]).kind == kind
    }

    /// Some kind of task that `processor` may name as its own is served.
    pub open spec fn serves_kind_of(&self, processor: P) -> bool {
        exists|kind: TaskType| #[trigger] names_kind(processor, kind) && self.serves(kind)
    }

    /// The processor bound to `kind`, where one is.
    pub closed spec fn processor_of(&self, kind: TaskType) -> P {
        self.processors@[choose|i: int|
            0 <= i < self.processors@.len() && (#[trigger] self.processors@[i]).kind
                == kind].processor
    }

    /// The callback on whose channel the manager publishes events.
    pub closed spec fn event_channel(&self) -> EventCallback {
        self.event_callback
    }

    /// The names under which function callbacks are registered.
    pub closed spec fn callback_names(&self) -> Seq<Seq<char>> {
        Seq::new(self.function_callbacks@.len(), |i: int| self.function_callbacks@[i].name@)
    }

    /// A function callback is registered under `name`.
    pub open spec fn has_callback(&self, name: Seq<char>) -> bool {
        self.callback_names().contains(name)
    }

    /// The tasks in flight are tasks of the table that are being processed.
    spec fn linked(&self) -> bool {
        forall|i: int|
            0 <= i < self.processing_tasks@.len() ==> (lookup(
                self.storage@,
                #[trigger] self.processing_tasks@[i].id@,
            ) matches Some(t) && t.status is Processing)
    }

    /// The manager's invariant. Besides the bookkeeping of the registries it
    /// says what `lemma_invariant` states.
    pub closed spec fn wf(&self) -> bool {
        &&& self.settled()
        &&& self.linked()
    }

    /// The invariant but for the link between the registry of tasks in
    /// flight and the table.
    spec fn settled(&self) -> bool {
        &&& self.storage.wf()
        &&& all_valid(self.storage@)
        &&& forall|i: int, j: int|
            0 <= i < j < self.processing_tasks@.len() ==> self.processing_tasks@[i].id@
                != self.processing_tasks@[j].id@
        &&& forall|i: int, j: int|
            0 <= i < j < self.processors@.len() ==> self.processors@[i].kind
                != self.processors@[j].kind
        &&& forall|i: int, j: int|
            0 <= i < j < self.function_callbacks@.len() ==> self.function_callbacks@[i].name@
                != self.function_callbacks@[j].name@
        &&& forall|i: int|
            0 <= i < self.function_callbacks@.len() ==> (
            #[trigger] self.function_callbacks@[i]).callback.callable()
    }

    /// Law of the manager's state: ids are unique; every task satisfies the
    /// task invariants (a task being processed has a start time, a task in a
    /// terminal state has a completion time, retries do not exceed the
    /// retries allowed); no task is in flight twice; and a task in flight is
    /// a task of the table that is being processed.
    pub proof fn lemma_invariant(&self)
        requires
            self.wf(),
        ensures
            unique_ids(self.tasks()),
            all_valid(self.tasks()),
            forall|i: int, j: int|
                0 <= i < j < self.in_flight().len() ==> self.in_flight()[i].id
                    != self.in_flight()[j].id,
            forall|id: Seq<char>| tracks(self.in_flight(), id) ==> processing(self.tasks(), id),
    {
        assert forall|i: int, j: int| 0 <= i < j < self.in_flight().len() implies self.in_flight()[i].id
            != self.in_flight()[j].id by {
            assert(self.processing_tasks@[i].id@ != self.processing_tasks@[j].id@);
        }
        assert forall|id: Seq<char>| tracks(self.in_flight(), id) implies processing(
            self.tasks(),
            id,
        ) by {
            let i = choose|i: int|
                0 <= i < self.in_flight().len() && (#[trigger] self.in_flight()[i]).id == id;
            assert(self.processing_tasks@[i].id@ == id);
        }
    }

    /// A manager over `storage`, with nothing in flight and nothing
    /// registered, and with an event channel of its own that nobody listens
    /// to yet.
    pub fn new(storage: TaskStorage) -> (r: Self)
        requires
            storage.wf(),
            all_valid(storage@),
        ensures
            r.wf(),
            r.tasks() == storage@,
            r.in_flight() == Seq::<ProcessingInfoView>::empty(),
            forall|kind: TaskType| !r.serves(kind),
            r.callback_names() == Seq::<Seq<char>>::empty(),
            r.event_channel().capacity() == EVENT_BUFFER,
    {
        let (event_callback, _) = EventCallback::new(EVENT_BUFFER);
        let r = TaskManager {
            storage,
            processors: Vec::new(),
            processing_tasks: Vec::new(),
            function_callbacks: Vec::new(),
            event_callback,
        };
        assert(r.in_flight() =~= Seq::<ProcessingInfoView>::empty());
        assert(r.callback_names() =~= Seq::<Seq<char>>::empty());
        r
    }

    /// The task table.
    pub fn storage(&self) -> (r: &TaskStorage)
        ensures
            r@ == self.tasks(),
    {
        &self.storage
    }

    /// The event channel's sending side.
    pub fn events(&self) -> (r: &EventCallback)
        ensures
            *r == self.event_channel(),
    {
        &self.event_callback
    }

    fn binding(&self, kind: TaskType) -> (r: Option<usize>)
        requires
            self.wf(),
        ensures
            r is Some == self.serves(kind),
            r matches Some(i) ==> i < self.processors@.len() && self.processors@[i as int].kind
                == kind && self.processors@[i as int].processor == self.processor_of(kind),
    {
        let mut i: usize = 0;
        while i < self.processors.len()
            invariant
                i <= self.processors.len(),
                self.wf(),
                forall|j: int| 0 <= j < i ==> self.processors@[j].kind != kind,
            decreases self.processors.len() - i,
        {
            if self.processors[i].kind == kind {
                proof {
                    let j = choose|j: int|
                        0 <= j < self.processors@.len() && (#[trigger] self.processors@[j]).kind
                            == kind;
                    if j < i {
                        assert(self.processors@[j].kind != self.processors@[i as int].kind);
                    } else if i < j {
                        assert(self.processors@[i as int].kind != self.processors@[j].kind);
                    }
                }
                return Some(i);
            }
            i = i + 1;
        }
        None
    }

    /// Asks `processor` for its kind of task and binds it to that kind, in
    /// place of a processor bound to that kind before. Returns the kind.
    pub fn register_processor(&mut self, processor: P) -> (kind: TaskType)
        requires
            old(self).wf(),
        ensures
            final(self).wf(),
            final(self).tasks() == old(self).tasks(),
            final(self).in_flight() == old(self).in_flight(),
            names_kind(processor, kind),
            forall|k: TaskType| final(self).serves(k) == (k == kind || old(self).serves(k)),
            final(self).processor_of(kind) == processor,
            forall|k: TaskType|
                k != kind && old(self).serves(k) ==> final(self).processor_of(k) == old(self).processor_of(k),
            final(self).callback_names() == old(self).callback_names(),
            final(self).event_channel() == old(self).event_channel(),
    {
        let kind = processor.task_type();
        let ghost before = self.processors@;
        let found = self.binding(kind);
        let entry = ProcessorBinding { kind, processor };
        match found {
            Some(i) => {
                self.processors.set(i, entry);
                proof {
                    let after = self.processors@;
                    assert forall|k: TaskType| self.serves(k) == (k == kind || old(self).serves(
                        k,
                    )) by {
                        if old(self).serves(k) {
                            let j = choose|j: int|
                                0 <= j < before.len() && (#[trigger] before[j]).kind == k;
                            assert(after[j].kind == k);
                        }
                        if k == kind {
                            assert(after[i as int].kind == k);
                        }
                        if self.serves(k) {
                            let j = choose|j: int|
                                0 <= j < after.len() && (#[trigger] after[j]).kind == k;
                            assert(before[j].kind == k);
                        }
                    }
                }
            },
            None => {
                self.processors.push(entry);
                proof {
                    let after = self.processors@;
                    let n = before.len() as int;
                    assert(after[n].kind == kind);
                    assert forall|k: TaskType| self.serves(k) == (k == kind || old(self).serves(
                        k,
                    )) by {
                        if old(self).serves(k) {
                            let j = choose|j: int|
                                0 <= j < before.len() && (#[trigger] before[j]).kind == k;
                            assert(after[j].kind == k);
                        }
                        if self.serves(k) {
                            let j = choose|j: int|
                                0 <= j < after.len() && (#[trigger] after[j]).kind == k;
                            if j < n {
                                assert(before[j].kind == k);
                            }
                        }
                    }
                }
            },
        }
        assert(self.in_flight() =~= old(self).in_flight());
        assert(self.callback_names() =~= old(self).callback_names());
        proof {
            let after = self.processors@;
            let at = if found is Some { found.unwrap() as int } else { before.len() as int };
            self.lemma_processor_at(at);
            assert forall|k: TaskType| k != kind && old(self).serves(k) implies self.processor_of(
                k,
            ) == old(self).processor_of(k) by {
                let j = choose|j: int| 0 <= j < before.len() && (#[trigger] before[j]).kind == k;
                assert(after[j] == before[j]);
                old(self).lemma_processor_at(j);
                self.lemma_processor_at(j);
            }
        }
        kind
    }

    /// The processor bound to the kind of a binding is that binding's.
    proof fn lemma_processor_at(&self, i: int)
        requires
            forall|a: int, b: int|
                0 <= a < b < self.processors@.len() ==> self.processors@[a].kind
                    != self.processors@[b].kind,
            0 <= i < self.processors@.len(),
        ensures
            self.processor_of(self.processors@[i].kind) == self.processors@[i].processor,
    {
        let kind = self.processors@[i].kind;
        let j = choose|j: int|
            0 <= j < self.processors@.len() && (#[trigger] self.processors@[j]).kind == kind;
        if j < i {
            assert(self.processors@[j].kind != self.processors@[i].kind);
        } else if i < j {
            assert(self.processors@[i].kind != self.processors@[j].kind);
        }
    }

    /// Whether the registry holds `id`.
    fn is_in_flight(&self, id: &str) -> (r: bool)
        ensures
            r == tracks(self.in_flight(), id@),
    {
        let mut i: usize = 0;
        while i < self.processing_tasks.len()
            invariant
                i <= self.processing_tasks.len(),
                forall|j: int| 0 <= j < i ==> self.in_flight()[j].id != id@,
            decreases self.processing_tasks.len() - i,
        {
            if str_eq(self.processing_tasks[i].id.as_str(), id) {
                assert(self.in_flight()[i as int].id == id@);
                return true;
            }
            i = i + 1;
        }
        false
    }

    /// Submits a task made of `config` under the token `token` at `now`,
    /// given what the processor of its kind said of its parameters. The task
    /// is stored as pending and returned. The submission fails, and nothing
    /// is stored, when no processor is bound to the kind of task ("No
    /// processor found for task type: " and the kind), when the processor
    /// refused the parameters (with the processor's message), and when the
    /// id is taken ("Task id already in use").
    pub fn create_task_checked(
        &mut self,
        config: TaskConfig,
        validation: Result<(), String>,
        token: &str,
        now: i64,
    ) -> (r: Result<Task, String>)
        requires
            old(self).wf(),
        ensures
            final(self).wf(),
            final(self).same_registries(old(self)),
            final(self).in_flight() == old(self).in_flight(),
            in_order_until(old(self).tasks(), now) ==> in_order_until(final(self).tasks(), now),
            result_view(r) == created(
                old(self).serves(config@.task_type),
                holds_id(old(self).tasks(), "task-"@ + token@),
                config@,
                validation,
                token@,
                now,
            ),
            final(self).tasks() == (match r {
                Ok(task) => old(self).tasks().push(task@),
                Err(_) => old(self).tasks(),
            }),
    {
        proof {
            if in_order_until(old(self).tasks(), now) {
                lemma_new_row_keeps_order(
                    old(self).tasks(),
                    submitted(config@, token@, now),
                    now,
                );
            }
        }
        if self.binding(config.task_type).is_none() {
            let kind = config.task_type.to_string();
            return Err(join("No processor found for task type: ", kind.as_str()));
        }
        match validation {
            Ok(()) => {},
            Err(m) => {
                return Err(m);
            },
        }
        let id = join("task-", token);
        if self.storage.get(id.as_str()).is_some() {
            return Err(String::from_str("Task id already in use"));
        }
        let mut config = config;
        config.retry_count = 0;
        let task = Task {
            id,
            status: TaskStatus::Pending,
            config,
            created_at: now,
            updated_at: now,
            started_at: None,
            completed_at: None,
            result: None,
            error: None,
        };
        let ghost before = self.storage@;
        self.storage.create(&task);
        proof {
            assert forall|k: int| 0 <= k < self.processing_tasks@.len() implies (lookup(
                self.storage@,
                #[trigger] self.processing_tasks@[k].id@,
            ) matches Some(t) && t.status is Processing) by {
                let held = self.processing_tasks@[k].id@;
                lemma_lookup_upserted(before, task@, held);
            }
            assert(self.in_flight() =~= old(self).in_flight());
        }
        Ok(task)
    }

    /// Submits a task made of `config` under the token `token` at `now`:
    /// the processor bound to the kind of task checks the parameters, and
    /// the submission answers as `created` says for what the processor
    /// answered. Without a processor for the kind the submission fails
    /// whatever the parameters are.
    pub fn create_task_with(&mut self, config: TaskConfig, token: &str, now: i64) -> (r: Result<
        Task,
        String,
    >)
        requires
            old(self).wf(),
        ensures
            final(self).wf(),
            final(self).same_registries(old(self)),
            final(self).in_flight() == old(self).in_flight(),
            exists|validation: Result<(), String>|
                {
                    &&& old(self).serves(config@.task_type) ==> checks(
                        old(self).processor_of(config@.task_type),
                        config.params,
                        validation,
                    )
                    &&& result_view(r) == #[trigger] created(
                        old(self).serves(config@.task_type),
                        holds_id(old(self).tasks(), "task-"@ + token@),
                        config@,
                        validation,
                        token@,
                        now,
                    )
                },
            final(self).tasks() == (match r {
                Ok(task) => old(self).tasks().push(task@),
                Err(_) => old(self).tasks(),
            }),
    {
        let validation = match self.binding(config.task_type) {
            Some(i) => self.processors[i].processor.validate_params(&config.params),
            None => Ok(()),
        };
        let ghost served = self.serves(config@.task_type);
        let ghost taken = holds_id(self.tasks(), "task-"@ + token@);
        let ghost c = config;
        let r = self.create_task_checked(config, validation, token, now);
        assert(result_view(r) == created(served, taken, c@, validation, token@, now));
        r
    }

    /// Submits a task under a random token, created now. Whatever the token
    /// and the clock's reading, the outcome is the one `create_task_with`
    /// gives for them.
    pub fn create_task(&mut self, config: TaskConfig) -> (r: Result<Task, String>)
        requires
            old(self).wf(),
        ensures
            final(self).wf(),
            final(self).same_registries(old(self)),
            final(self).in_flight() == old(self).in_flight(),
            exists|validation: Result<(), String>, token: Seq<char>, now: i64|
                {
                    &&& old(self).serves(config@.task_type) ==> checks(
                        old(self).processor_of(config@.task_type),
                        config.params,
                        validation,
                    )
                    &&& result_view(r) == #[trigger] created(
                        old(self).serves(config@.task_type),
                        holds_id(old(self).tasks(), "task-"@ + token),
                        config@,
                        validation,
                        token,
                        now,
                    )
                },
            final(self).tasks() == (match r {
                Ok(task) => old(self).tasks().push(task@),
                Err(_) => old(self).tasks(),
            }),
    {
        let token = fresh_uuid();
        let now = now_millis();
        self.create_task_with(config, token.as_str(), now)
    }

    /// Claims the next pending task of the kind `kind` at `now`: the most
    /// urgent one, and among equals the oldest. The task is set to
    /// Processing, entered in the registry of tasks in flight, and returned
    /// as it then stands. `None` when no task of that kind is pending.
    ///
    /// The claimed task has a start time: `now`, unless it had one. While
    /// `now` is not behind the last update of any row, no start and no end
    /// in the table lies after the row's last update.
    pub fn get_next_task_at(&mut self, kind: TaskType, now: i64) -> (r: Option<Task>)
        requires
            old(self).wf(),
        ensures
            final(self).wf(),
            final(self).same_registries(old(self)),
            stepped(old(self).tasks(), final(self).tasks()),
            in_order_until(old(self).tasks(), now) ==> in_order_until(final(self).tasks(), now),
            match r {
                Some(task) => {
                    &&& claimable(old(self).tasks(), kind, 1).len() == 1
                    &&& task@ == claimable(old(self).tasks(), kind, 1)[0].with_status(
                        TaskStatusView::Processing,
                        now,
                    )
                    &&& final(self).tasks() == with_row_status(
                        old(self).tasks(),
                        task@.id,
                        TaskStatusView::Processing,
                        now,
                    )
                    &&& !tracks(old(self).in_flight(), task@.id)
                    &&& final(self).in_flight() == old(self).in_flight().push(
                        ProcessingInfoView { id: task@.id, started_at: now },
                    )
                    &&& task@.config.task_type == kind
                    &&& lookup(old(self).tasks(), task@.id) == Some(
                        claimable(old(self).tasks(), kind, 1)[0],
                    )
                    &&& lookup(final(self).tasks(), task@.id) == Some(task@)
                    &&& task@.status is Processing
                    &&& task@.started_at is Some
                    &&& claimable(old(self).tasks(), kind, 1)[0].time_ordered() && claimable(
                        old(self).tasks(),
                        kind,
                        1,
                    )[0].updated_at <= now ==> task@.time_ordered()
                },
                None => {
                    &&& claimable(old(self).tasks(), kind, 1).len() == 0
                    &&& final(self).tasks() == old(self).tasks()
                    &&& final(self).in_flight() == old(self).in_flight()
                },
            },
    {
        let ghost before = self.storage@;
        let ghost flying = self.in_flight();
        let ghost chosen = claimable(before, kind, 1);
        let mut claimed = self.storage.claim_next_pending(kind, 1, now);
        let ghost handed = claimed.deep_view();
        proof {
            assert(handed == started(chosen, now));
            if handed.len() > 0 {
                assert(claimed[handed.len() - 1]@ == handed[handed.len() - 1]);
            }
            let waiting = sorted_by(
                rows_where(before, RowFilter::Waiting(Some(kind))),
                RowOrder::Urgency,
            );
            assert(chosen.len() <= 1);
            assert(claimed.deep_view().len() == chosen.len());
            if chosen.len() == 1 {
                assert(chosen[0] == waiting[0]);
                lemma_sorted_rows_are_rows(
                    before,
                    RowFilter::Waiting(Some(kind)),
                    RowOrder::Urgency,
                    0,
                );
                let k = choose|k: int| 0 <= k < before.len() && before[k] == chosen[0];
                lemma_row_index(before, k);
                lemma_lookup_with_row_status(
                    before,
                    chosen[0].id,
                    TaskStatusView::Processing,
                    now,
                    chosen[0].id,
                );
                lemma_row_status_steps(before, chosen[0].id, TaskStatusView::Processing, now);
                assert(chosen.drop_last() =~= Seq::<TaskView>::empty());
                assert(marked(before, chosen.drop_last(), now) == before);
                assert(self.storage@ == with_row_status(
                    before,
                    chosen[0].id,
                    TaskStatusView::Processing,
                    now,
                ));
                // A pending task is not in flight.
                if tracks(flying, chosen[0].id) {
                    let i = choose|i: int|
                        0 <= i < flying.len() && (#[trigger] flying[i]).id == chosen[0].id;
                    assert(self.processing_tasks@[i].id@ == chosen[0].id);
                }
            } else {
                assert(marked(before, chosen, now) == before);
            }
        }
        let task = match claimed.pop() {
            Some(task) => task,
            None => {
                return None;
            },
        };
        assert(task@ == chosen[0].with_status(TaskStatusView::Processing, now));
        if self.is_in_flight(task.id.as_str()) {
            return None;
        }
        self.processing_tasks.push(ProcessingInfo { id: task.id.clone(), started_at: now });
        proof {
            assert(self.in_flight() =~= flying.push(
                ProcessingInfoView { id: task@.id, started_at: now },
            ));
            assert forall|k: int| 0 <= k < self.processing_tasks@.len() implies (lookup(
                self.storage@,
                #[trigger] self.processing_tasks@[k].id@,
            ) matches Some(t) && t.status is Processing) by {
                let held = self.processing_tasks@[k].id@;
                lemma_lookup_with_row_status(
                    before,
                    task@.id,
                    TaskStatusView::Processing,
                    now,
                    held,
                );
                if k < flying.len() {
                    assert(old(self).processing_tasks@[k].id@ == held);
                    assert(flying[k].id == held);
                }
            }
            assert forall|i: int, j: int|
                0 <= i < j < self.processing_tasks@.len() implies self.processing_tasks@[i].id@
                != self.processing_tasks@[j].id@ by {
                if j == flying.len() {
                    assert(flying[i].id == self.processing_tasks@[i].id@);
                }
            }
        }
        proof {
            if in_order_until(before, now) {
                lemma_status_changes_keep_order(
                    before,
                    task@.id,
                    RowFilter::All,
                    TaskStatusView::Processing,
                    now,
                );
            }
        }
        Some(task)
    }

    /// Claims the next pending task of the kind `kind` at the current time.
    /// Whatever the clock reads, the outcome is the one `get_next_task_at`
    /// gives for that reading.
    pub fn get_next_task(&mut self, kind: TaskType) -> (r: Option<Task>)
        requires
            old(self).wf(),
        ensures
            final(self).wf(),
            final(self).same_registries(old(self)),
            stepped(old(self).tasks(), final(self).tasks()),
            r is Some == (claimable(old(self).tasks(), kind, 1).len() == 1),
            r matches Some(task) ==> task@.config.task_type == kind && processing(
                final(self).tasks(),
                task@.id,
            ) && lookup(final(self).tasks(), task@.id) == Some(task@),
            r matches Some(task) ==> task@.started_at is Some && (claimable(
                old(self).tasks(),
                kind,
                1,
            )[0].started_at is None ==> task@.started_at == Some(task@.updated_at)),
            r matches Some(task) ==> exists|now: i64|
                {
                    &&& task@ == #[trigger] claimable(old(self).tasks(), kind, 1)[0].with_status(
                        TaskStatusView::Processing,
                        now,
                    )
                    &&& final(self).tasks() == with_row_status(
                        old(self).tasks(),
                        task@.id,
                        TaskStatusView::Processing,
                        now,
                    )
                    &&& !tracks(old(self).in_flight(), task@.id)
                    &&& final(self).in_flight() == old(self).in_flight().push(
                        ProcessingInfoView { id: task@.id, started_at: now },
                    )
                },
            r is None ==> final(self).tasks() == old(self).tasks() && final(self).in_flight()
                == old(self).in_flight(),
    {
        let now = now_millis();
        self.get_next_task_at(kind, now)
    }

    /// The task `task_id`.
    pub fn get_task(&self, task_id: &str) -> (r: Option<Task>)
        requires
            self.wf(),
        ensures
            r.deep_view() == lookup(self.tasks(), task_id@),
    {
        self.storage.get(task_id)
    }

    /// The status of the task `task_id`.
    pub fn get_task_status(&self, task_id: &str) -> (r: Option<TaskStatus>)
        requires
            self.wf(),
        ensures
            r.deep_view() == (match lookup(self.tasks(), task_id@) {
                Some(t) => Some(t.status),
                None => None,
            }),
    {
        match self.storage.get(task_id) {
            Some(t) => Some(t.status),
            None => None,
        }
    }

    /// The tasks being processed whose deadline lies before `now`.
    pub fn get_timed_out_tasks_at(&self, now: i64) -> (r: Vec<Task>)
        ensures
            r.deep_view() == rows_where(self.tasks(), RowFilter::Overdue(now)),
    {
        self.storage.get_timeouted_at(now)
    }

    /// The tasks that are overdue at the current time, whatever the clock
    /// reads.
    pub fn get_timed_out_tasks(&self) -> (r: Vec<Task>)
        ensures
            exists|now: i64| r.deep_view() == rows_where(self.tasks(), RowFilter::Overdue(now)),
    {
        let now = now_millis();
        self.get_timed_out_tasks_at(now)
    }
    /// Drops entries from the registry of tasks in flight.
    fn prune(&mut self, what: Pruning<'_>) -> (r: usize)
        requires
            old(self).settled(),
        ensures
            final(self).settled(),
            final(self).tasks() == old(self).tasks(),
            final(self).processors == old(self).processors,
            final(self).function_callbacks == old(self).function_callbacks,
            final(self).event_callback == old(self).event_callback,
            final(self).in_flight() == pruned(old(self).in_flight(), what.dropped(old(self).tasks())),
            r == old(self).in_flight().len() - final(self).in_flight().len(),
            forall|i: int|
                0 <= i < final(self).in_flight().len() ==> old(self).in_flight().contains(
                    #[trigger] final(self).in_flight()[i],
                ) && !what.dropped(old(self).tasks()).drops(final(self).in_flight()[i]),
    {
        let ghost before = self.in_flight();
        let ghost rows = self.storage@;
        let ghost which = what.dropped(rows);
        let mut kept: usize = 0;
        let mut removed: usize = 0;
        proof {
            reveal(Seq::filter);
            assert(before.subrange(0, 0) =~= Seq::<ProcessingInfoView>::empty());
            assert(self.in_flight().subrange(0, 0) =~= pruned(before.subrange(0, 0), which));
            assert(before.len() == self.processing_tasks.len());
        }
        while kept < self.processing_tasks.len()
            invariant
                kept <= self.processing_tasks.len(),
                before.len() <= usize::MAX,
                self.in_flight().len() + removed == before.len(),
                self.in_flight().subrange(0, kept as int) == pruned(
                    before.subrange(0, kept + removed),
                    which,
                ),
                forall|k: int|
                    kept <= k < self.in_flight().len() ==> #[trigger] self.in_flight()[k]
                        == before[k + removed],
                forall|k: int|
                    0 <= k < kept ==> before.contains(#[trigger] self.in_flight()[k])
                        && !which.drops(self.in_flight()[k]),
                self.settled(),
                self.storage@ == rows,
                which == what.dropped(rows),
                self.processors == old(self).processors,
                self.function_callbacks == old(self).function_callbacks,
                self.event_callback == old(self).event_callback,
            decreases self.processing_tasks.len() - kept,
        {
            let ghost cur = self.in_flight();
            let ghost seen = before.subrange(0, kept + removed);
            proof {
                assert(cur[kept as int] == before[kept + removed]);
                assert(before.subrange(0, kept + removed + 1) =~= seen.push(before[kept + removed]));
                seen.lemma_filter_push(
                    before[kept + removed],
                    |e: ProcessingInfoView| !which.drops(e),
                );
                assert(self.processing_tasks[kept as int].deep_view() == cur[kept as int]);
            }
            let entry = &self.processing_tasks[kept];
            let drop = match what {
                Pruning::Task(id) => str_eq(entry.id.as_str(), id),
                Pruning::Settled => match self.storage.get(entry.id.as_str()) {
                    Some(t) => !t.status.is_processing(),
                    None => true,
                },
                Pruning::Stale(now) => {
                    let span: i128 = now as i128 - entry.started_at as i128;
                    span / 60_000 > STALE_AFTER_MINUTES as i128
                },
            };
            assert(drop == which.drops(cur[kept as int]));
            if drop {
                self.processing_tasks.remove(kept);
                removed = removed + 1;
                proof {
                    assert(self.in_flight() =~= cur.remove(kept as int));
                    assert(self.in_flight().subrange(0, kept as int) =~= cur.subrange(
                        0,
                        kept as int,
                    ));
                    assert forall|k: int| kept <= k < self.in_flight().len() implies
                        #[trigger] self.in_flight()[k] == before[k + removed] by {
                        assert(self.in_flight()[k] == cur[k + 1]);
                    }
                    assert forall|i: int, j: int|
                        0 <= i < j < self.processing_tasks@.len() implies self.processing_tasks@[i].id@
                        != self.processing_tasks@[j].id@ by {
                        let a = if i < kept { i } else { i + 1 };
                        let b = if j < kept { j } else { j + 1 };
                        assert(cur[a].id != cur[b].id) by {
                            assert(self.in_flight()[i] == cur[a]);
                            assert(self.in_flight()[j] == cur[b]);
                        }
                    }
                    assert forall|k: int| 0 <= k < kept implies before.contains(
                        #[trigger] self.in_flight()[k],
                    ) && !which.drops(self.in_flight()[k]) by {
                        assert(self.in_flight()[k] == cur[k]);
                    }
                }
            } else {
                kept = kept + 1;
                proof {
                    assert(self.in_flight().subrange(0, kept as int) =~= cur.subrange(
                        0,
                        kept - 1,
                    ).push(cur[kept - 1]));
                    assert(before.contains(cur[kept - 1]));
                }
            }
        }
        proof {
            assert(self.in_flight().subrange(0, kept as int) =~= self.in_flight());
            assert(before.subrange(0, kept + removed) =~= before);
        }
        removed
    }

    /// Records that the task `task_id` failed with `error` at `now`. A task
    /// that is being processed is marked for a retry, with one retry more,
    /// while retries are left, and fails with the error otherwise; either
    /// way it leaves the registry of tasks in flight, and is returned as it
    /// then stands. For any other task nothing changes and `None` is
    /// returned.
    ///
    /// The task then holds no result, and an error exactly when it has
    /// failed. While `now` is not behind the last update of any row, the
    /// times of every row stay in order.
    pub fn handle_task_error_at(&mut self, task_id: &str, error: String, now: i64) -> (r: Option<
        Task,
    >)
        requires
            old(self).wf(),
        ensures
            final(self).wf(),
            r is Some == processing(old(self).tasks(), task_id@),
            r matches Some(task) ==> {
                &&& task@ == after_failure(lookup(old(self).tasks(), task_id@).unwrap(), error@, now)
                &&& final(self).tasks() == upserted(old(self).tasks(), task@)
                &&& final(self).in_flight() == pruned(
                    old(self).in_flight(),
                    Dropped::Task(task_id@),
                )
                &&& lookup(final(self).tasks(), task_id@) == Some(task@)
                &&& task@.result is None
                &&& task@.error is Some <==> task@.status is Failed
                &&& lookup(old(self).tasks(), task_id@).unwrap().time_ordered() && lookup(
                    old(self).tasks(),
                    task_id@,
                ).unwrap().updated_at <= now ==> task@.time_ordered()
            },
            !processing(final(self).tasks(), task_id@),
            stepped(old(self).tasks(), final(self).tasks()),
            in_order_until(old(self).tasks(), now) ==> in_order_until(final(self).tasks(), now),
            r is None ==> final(self).tasks() == old(self).tasks() && final(self).in_flight()
                == old(self).in_flight(),
            final(self).same_registries(old(self)),
    {
        let ghost rows = self.storage@;
        let mut task = match self.storage.get(task_id) {
            Some(t) => t,
            None => {
                return None;
            },
        };
        if !task.status.is_processing() {
            return None;
        }
        if task.config.retry_count < task.config.max_retries {
            task.config.retry_count = task.config.retry_count + 1;
            task.set_status(TaskStatus::Retrying, now);
        } else {
            task.set_status(TaskStatus::Failed(error), now);
        }
        self.storage.create(&task);
        proof {
            let i = row_index(rows, task_id@);
            assert(task@.id == task_id@);
            assert(crate::storage::task::merged(rows[i], task@) == task@);
            lemma_lookup_upserted(rows, task@, task_id@);
            lemma_upsert_steps(rows, task@);
        }
        let ghost flying = self.in_flight();
        self.prune(Pruning::Task(task_id));
        proof {
            assert forall|k: int| 0 <= k < self.processing_tasks@.len() implies (lookup(
                self.storage@,
                #[trigger] self.processing_tasks@[k].id@,
            ) matches Some(t) && t.status is Processing) by {
                let e = self.in_flight()[k];
                assert(e.id == self.processing_tasks@[k].id@);
                assert(flying.contains(e));
                let j = choose|j: int| 0 <= j < flying.len() && flying[j] == e;
                assert(old(self).processing_tasks@[j].id@ == e.id);
                lemma_lookup_upserted(rows, task@, e.id);
            }
        }
        proof {
            if in_order_until(rows, now) {
                assert(rows[row_index(rows, task_id@)].time_ordered());
                lemma_upsert_keeps_order(rows, task@, now);
            }
        }
        Some(task)
    }

    /// Records that the task `task_id` completed with `result` at `now`. A
    /// task that is being processed gets the result and the status
    /// Completed, leaves the registry of tasks in flight, and is returned as
    /// it then stands. For any other task nothing changes and `None` is
    /// returned.
    ///
    /// The task then holds the result and no error. While `now` is not
    /// behind the last update of any row, the times of every row stay in
    /// order, and a task that had no end starts before it ends, and ends at
    /// its last update.
    pub fn complete_task_at(&mut self, task_id: &str, result: TaskResult, now: i64) -> (r: Option<
        Task,
    >)
        requires
            old(self).wf(),
        ensures
            final(self).wf(),
            r is Some == processing(old(self).tasks(), task_id@),
            r matches Some(task) ==> {
                &&& task@ == after_success(lookup(old(self).tasks(), task_id@).unwrap(), result@, now)
                &&& final(self).tasks() == upserted(old(self).tasks(), task@)
                &&& final(self).in_flight() == pruned(
                    old(self).in_flight(),
                    Dropped::Task(task_id@),
                )
                &&& lookup(final(self).tasks(), task_id@) == Some(task@)
                &&& task@.status is Completed
                &&& task@.result == Some(result@)
                &&& task@.error is None
                &&& lookup(old(self).tasks(), task_id@).unwrap().time_ordered() && lookup(
                    old(self).tasks(),
                    task_id@,
                ).unwrap().updated_at <= now ==> {
                    &&& task@.time_ordered()
                    &&& lookup(old(self).tasks(), task_id@).unwrap().completed_at is None
                        ==> task@.run_in_order()
                }
            },
            !processing(final(self).tasks(), task_id@),
            stepped(old(self).tasks(), final(self).tasks()),
            in_order_until(old(self).tasks(), now) ==> in_order_until(final(self).tasks(), now),
            r is None ==> final(self).tasks() == old(self).tasks() && final(self).in_flight()
                == old(self).in_flight(),
            final(self).same_registries(old(self)),
    {
        let ghost rows = self.storage@;
        let mut task = match self.storage.get(task_id) {
            Some(t) => t,
            None => {
                return None;
            },
        };
        if !task.status.is_processing() {
            return None;
        }
        task.set_status(TaskStatus::Completed, now);
        task.result = Some(result);
        self.storage.create(&task);
        proof {
            let i = row_index(rows, task_id@);
            assert(task@.id == task_id@);
            assert(crate::storage::task::merged(rows[i], task@) == task@);
            lemma_lookup_upserted(rows, task@, task_id@);
            lemma_upsert_steps(rows, task@);
        }
        let ghost flying = self.in_flight();
        self.prune(Pruning::Task(task_id));
        proof {
            assert forall|k: int| 0 <= k < self.processing_tasks@.len() implies (lookup(
                self.storage@,
                #[trigger] self.processing_tasks@[k].id@,
            ) matches Some(t) && t.status is Processing) by {
                let e = self.in_flight()[k];
                assert(e.id == self.processing_tasks@[k].id@);
                assert(flying.contains(e));
                let j = choose|j: int| 0 <= j < flying.len() && flying[j] == e;
                assert(old(self).processing_tasks@[j].id@ == e.id);
                lemma_lookup_upserted(rows, task@, e.id);
            }
        }
        proof {
            if in_order_until(rows, now) {
                assert(rows[row_index(rows, task_id@)].time_ordered());
                lemma_upsert_keeps_order(rows, task@, now);
            }
        }
        Some(task)
    }

    /// `outcome` is what a run of `task` comes to: what the processor bound
    /// to the task's kind answers on it, or, without such a processor, the
    /// error "No processor found for task type".
    pub open spec fn ran(&self, task: Task, outcome: Result<TaskResult, String>) -> bool {
        if self.serves(task@.config.task_type) {
            runs(self.processor_of(task@.config.task_type), task, outcome)
        } else {
            outcome matches Err(m) && m@ == "No processor found for task type"@
        }
    }

    /// Runs the processor bound to the task's kind on `task` and hands on
    /// what it answers. Nothing is recorded.
    pub fn run_task(&self, task: &Task) -> (r: Result<TaskResult, String>)
        requires
            self.wf(),
        ensures
            self.ran(*task, r),
    {
        match self.binding(task.config.task_type) {
            Some(i) => self.processors[i].processor.process(task),
            None => Err(String::from_str("No processor found for task type")),
        }
    }

    /// Runs the processor bound to the task's kind on `task`. A result is
    /// returned as it is, and nothing changes. When the processor fails, the
    /// failure is recorded as `handle_task_error_at` records it, with the
    /// processor's message and at the clock's reading, and the processor's
    /// error is returned. Without a processor for the kind the call fails
    /// with "No processor found for task type" and nothing changes.
    pub fn process_task(&mut self, task: &Task) -> (r: Result<TaskResult, String>)
        requires
            old(self).wf(),
        ensures
            final(self).wf(),
            final(self).same_registries(old(self)),
            stepped(old(self).tasks(), final(self).tasks()),
            !old(self).serves(task@.config.task_type) ==> {
                &&& r matches Err(m) && m@ == "No processor found for task type"@
                &&& final(self).tasks() == old(self).tasks()
                &&& final(self).in_flight() == old(self).in_flight()
            },
            old(self).serves(task@.config.task_type) ==> exists|outcome: Result<TaskResult, String>|
                {
                    &&& #[trigger] runs(
                        old(self).processor_of(task@.config.task_type),
                        *task,
                        outcome,
                    )
                    &&& r == outcome
                    &&& match outcome {
                        Ok(_) => final(self).tasks() == old(self).tasks() && final(self).in_flight() == old(self).in_flight(),
                        Err(e) => exists|now: i64| #[trigger]
                            old(self).failure_recorded(task@.id, e@, now, final(self)),
                    }
                },
    {
        let served = self.binding(task.config.task_type).is_some();
        let outcome = self.run_task(task);
        if !served {
            return outcome;
        }
        match outcome {
            Ok(result) => {
                assert(runs(old(self).processor_of(task@.config.task_type), *task, outcome));
                Ok(result)
            },
            Err(e) => {
                let now = now_millis();
                self.handle_task_error_at(task.id.as_str(), e.clone(), now);
                assert(old(self).failure_recorded(task@.id, e@, now, self));
                assert(runs(old(self).processor_of(task@.config.task_type), *task, outcome));
                Err(e)
            },
        }
    }

    /// Times out, at `now`, every task that is being processed and whose
    /// deadline lies before `now`, and drops from the registry of tasks in
    /// flight what is no longer being processed.
    pub fn handle_timed_out_tasks_at(&mut self, now: i64)
        requires
            old(self).wf(),
        ensures
            final(self).wf(),
            final(self).same_registries(old(self)),
            stepped(old(self).tasks(), final(self).tasks()),
            in_order_until(old(self).tasks(), now) ==> in_order_until(final(self).tasks(), now),
            final(self).tasks() == rows_marked(
                old(self).tasks(),
                RowFilter::Overdue(now),
                TaskStatusView::TimedOut,
                now,
            ),
            final(self).in_flight() == pruned(
                old(self).in_flight(),
                Dropped::Settled(final(self).tasks()),
            ),
    {
        proof {
            if in_order_until(old(self).tasks(), now) {
                lemma_status_changes_keep_order(
                    old(self).tasks(),
                    Seq::empty(),
                    RowFilter::Overdue(now),
                    TaskStatusView::TimedOut,
                    now,
                );
            }
        }
        proof {
            lemma_rows_marked_step(
                self.storage@,
                RowFilter::Overdue(now),
                TaskStatusView::TimedOut,
                now,
            );
        }
        self.storage.update_where(&RowFilter::Overdue(now), &TaskStatus::TimedOut, now);
        self.prune(Pruning::Settled);
        proof {
            assert forall|k: int| 0 <= k < self.processing_tasks@.len() implies (lookup(
                self.storage@,
                #[trigger] self.processing_tasks@[k].id@,
            ) matches Some(t) && t.status is Processing) by {
                let e = self.in_flight()[k];
                assert(e.id == self.processing_tasks@[k].id@);
                assert(!Dropped::Settled(self.storage@).drops(e));
            }
        }
    }

    /// Times out the overdue tasks at the current time. Whatever the clock
    /// reads, the outcome is the one `handle_timed_out_tasks_at` gives for
    /// that reading.
    pub fn handle_timed_out_tasks(&mut self)
        requires
            old(self).wf(),
        ensures
            final(self).wf(),
            final(self).same_registries(old(self)),
            stepped(old(self).tasks(), final(self).tasks()),
            exists|now: i64|
                final(self).tasks() == #[trigger] rows_marked(
                    old(self).tasks(),
                    RowFilter::Overdue(now),
                    TaskStatusView::TimedOut,
                    now,
                ),
            final(self).in_flight() == pruned(
                old(self).in_flight(),
                Dropped::Settled(final(self).tasks()),
            ),
    {
        let now = now_millis();
        self.handle_timed_out_tasks_at(now);
    }

    /// Queues again, at `now`, every task that is marked for a retry.
    pub fn requeue_retrying_at(&mut self, now: i64)
        requires
            old(self).wf(),
        ensures
            final(self).wf(),
            final(self).same_registries(old(self)),
            stepped(old(self).tasks(), final(self).tasks()),
            in_order_until(old(self).tasks(), now) ==> in_order_until(final(self).tasks(), now),
            final(self).tasks() == rows_marked(
                old(self).tasks(),
                RowFilter::Kind(StatusKind::Retrying),
                TaskStatusView::Pending,
                now,
            ),
            final(self).in_flight() == old(self).in_flight(),
    {
        proof {
            if in_order_until(old(self).tasks(), now) {
                lemma_status_changes_keep_order(
                    old(self).tasks(),
                    Seq::empty(),
                    RowFilter::Kind(StatusKind::Retrying),
                    TaskStatusView::Pending,
                    now,
                );
            }
        }
        let ghost rows = self.storage@;
        proof {
            lemma_rows_marked_step(
                rows,
                RowFilter::Kind(StatusKind::Retrying),
                TaskStatusView::Pending,
                now,
            );
        }
        self.storage.update_where(
            &RowFilter::Kind(StatusKind::Retrying),
            &TaskStatus::Pending,
            now,
        );
        proof {
            assert forall|k: int| 0 <= k < self.processing_tasks@.len() implies (lookup(
                self.storage@,
                #[trigger] self.processing_tasks@[k].id@,
            ) matches Some(t) && t.status is Processing) by {
                lemma_lookup_rows_marked(
                    rows,
                    RowFilter::Kind(StatusKind::Retrying),
                    TaskStatusView::Pending,
                    now,
                    self.processing_tasks@[k].id@,
                );
            }
        }
    }

    /// Queues the tasks marked for a retry again, at the current time.
    pub fn requeue_retrying(&mut self)
        requires
            old(self).wf(),
        ensures
            final(self).wf(),
            final(self).same_registries(old(self)),
            stepped(old(self).tasks(), final(self).tasks()),
            exists|now: i64|
                final(self).tasks() == #[trigger] rows_marked(
                    old(self).tasks(),
                    RowFilter::Kind(StatusKind::Retrying),
                    TaskStatusView::Pending,
                    now,
                ),
            final(self).in_flight() == old(self).in_flight(),
    {
        let now = now_millis();
        self.requeue_retrying_at(now);
    }

    /// Gives up, at `now`, the tasks in flight that were claimed more than
    /// thirty minutes ago: each is timed out in the table and leaves the
    /// registry.
    pub fn cleanup_stale_tasks_at(&mut self, now: i64)
        requires
            old(self).wf(),
        ensures
            final(self).wf(),
            final(self).same_registries(old(self)),
            moved_on(old(self).tasks(), final(self).tasks()),
            in_order_until(old(self).tasks(), now) ==> in_order_until(final(self).tasks(), now),
            final(self).tasks() == stale_timed_out(old(self).tasks(), old(self).in_flight(), now),
            final(self).in_flight() == pruned(old(self).in_flight(), Dropped::Stale(now)),
    {
        proof {
            if in_order_until(old(self).tasks(), now) {
                lemma_stale_keeps_order(old(self).tasks(), old(self).in_flight(), now);
            }
        }
        let ghost rows = self.storage@;
        let ghost flying = self.in_flight();
        let mut k: usize = 0;
        assert(flying.subrange(0, 0) =~= Seq::<ProcessingInfoView>::empty());
        proof {
            lemma_moved_on(rows, rows, rows);
        }
        while k < self.processing_tasks.len()
            invariant
                k <= self.processing_tasks.len(),
                self.in_flight() == flying,
                self.storage.wf(),
                all_valid(self.storage@),
                unique_ids(rows),
                moved_on(rows, self.storage@),
                forall|i: int, j: int| 0 <= i < j < flying.len() ==> flying[i].id != flying[j].id,
                forall|i: int|
                    0 <= i < flying.len() ==> (lookup(rows, (#[trigger] flying[i]).id) matches Some(
                        t,
                    ) && t.status is Processing),
                self.storage@ == stale_timed_out(rows, flying.subrange(0, k as int), now),
                self.processors == old(self).processors,
                self.function_callbacks == old(self).function_callbacks,
                self.event_callback == old(self).event_callback,
                self.processing_tasks == old(self).processing_tasks,
            decreases self.processing_tasks.len() - k,
        {
            proof {
                let upto = flying.subrange(0, k + 1);
                assert(upto.drop_last() =~= flying.subrange(0, k as int));
                assert(upto.last() == flying[k as int]);
                assert(self.processing_tasks[k as int].deep_view() == flying[k as int]);
            }
            let span: i128 = now as i128 - self.processing_tasks[k].started_at as i128;
            if span / 60_000 > STALE_AFTER_MINUTES as i128 {
                let ghost cur = self.storage@;
                proof {
                    let seen = flying.subrange(0, k as int);
                    let id = flying[k as int].id;
                    assert forall|m: int|
                        0 <= m < seen.len() && (#[trigger] seen[m]).stale_at(now) implies seen[m].id
                        != id by {
                        assert(seen[m] == flying[m]);
                    }
                    lemma_stale_timed_out(rows, seen, now, id);
                    lemma_row_status_steps(cur, id, TaskStatusView::TimedOut, now);
                    lemma_moved_on(
                        cur,
                        with_row_status(cur, id, TaskStatusView::TimedOut, now),
                        cur,
                    );
                    lemma_moved_on(
                        rows,
                        cur,
                        with_row_status(cur, id, TaskStatusView::TimedOut, now),
                    );
                }
                self.storage.update_at(
                    self.processing_tasks[k].id.as_str(),
                    &TaskStatus::TimedOut,
                    now,
                );
            }
            k = k + 1;
        }
        assert(flying.subrange(0, k as int) =~= flying);
        assert(self.settled());
        self.prune(Pruning::Stale(now));
        proof {
            assert forall|i: int| 0 <= i < self.processing_tasks@.len() implies (lookup(
                self.storage@,
                #[trigger] self.processing_tasks@[i].id@,
            ) matches Some(t) && t.status is Processing) by {
                let e = self.in_flight()[i];
                assert(e.id == self.processing_tasks@[i].id@);
                assert(flying.contains(e));
                let j = choose|j: int| 0 <= j < flying.len() && flying[j] == e;
                assert(old(self).processing_tasks@[j].id@ == e.id);
                assert forall|m: int|
                    0 <= m < flying.len() && (#[trigger] flying[m]).stale_at(
                        now,
                    ) implies flying[m].id != e.id by {
                    if m < j {
                        assert(old(self).processing_tasks@[m].id@ != old(self).processing_tasks@[j].id@);
                    } else if j < m {
                        assert(old(self).processing_tasks@[j].id@ != old(self).processing_tasks@[m].id@);
                    }
                }
                lemma_stale_timed_out(rows, flying, now, e.id);
            }
        }
    }

    /// Gives up the stale tasks in flight at the current time.
    pub fn cleanup_stale_tasks(&mut self)
        requires
            old(self).wf(),
        ensures
            final(self).wf(),
            final(self).same_registries(old(self)),
            moved_on(old(self).tasks(), final(self).tasks()),
            exists|now: i64|
                {
                    &&& final(self).tasks() == #[trigger] stale_timed_out(
                        old(self).tasks(),
                        old(self).in_flight(),
                        now,
                    )
                    &&& final(self).in_flight() == pruned(old(self).in_flight(), Dropped::Stale(now))
                },
    {
        let now = now_millis();
        self.cleanup_stale_tasks_at(now);
    }

    /// Counts, by status, the tasks on one page of the table in order of
    /// creation.
    pub fn get_task_stats(&self, pagination: &Pagination) -> (r: TaskStats)
        ensures
            r == tally(page_of(sorted_by(self.tasks(), RowOrder::Created), *pagination)),
    {
        let page = self.storage.list(pagination);
        let ghost rows = page.deep_view();
        let mut stats = TaskStats::default();
        let mut i: usize = 0;
        proof {
            reveal(Seq::filter);
            assert(rows.subrange(0, 0) =~= Seq::<TaskView>::empty());
        }
        while i < page.len()
            invariant
                i <= page.len(),
                rows == page.deep_view(),
                stats == tally(rows.subrange(0, i as int)),
                stats.pending + stats.processing + stats.completed + stats.failed + stats.retrying
                    + stats.timed_out == i,
            decreases page.len() - i,
        {
            proof {
                let seen = rows.subrange(0, i as int);
                assert(rows.subrange(0, i + 1) =~= seen.push(rows[i as int]));
                lemma_rows_where_push(seen, rows[i as int], RowFilter::Kind(StatusKind::Pending));
                lemma_rows_where_push(seen, rows[i as int], RowFilter::Kind(StatusKind::Processing));
                lemma_rows_where_push(seen, rows[i as int], RowFilter::Kind(StatusKind::Completed));
                lemma_rows_where_push(seen, rows[i as int], RowFilter::Kind(StatusKind::Failed));
                lemma_rows_where_push(seen, rows[i as int], RowFilter::Kind(StatusKind::Retrying));
                lemma_rows_where_push(seen, rows[i as int], RowFilter::Kind(StatusKind::TimedOut));
                assert(page[i as int]@ == rows[i as int]);
            }
            match page[i].status.kind() {
                StatusKind::Pending => {
                    stats.pending = stats.pending + 1;
                },
                StatusKind::Processing => {
                    stats.processing = stats.processing + 1;
                },
                StatusKind::Completed => {
                    stats.completed = stats.completed + 1;
                },
                StatusKind::Failed => {
                    stats.failed = stats.failed + 1;
                },
                StatusKind::Retrying => {
                    stats.retrying = stats.retrying + 1;
                },
                StatusKind::TimedOut => {
                    stats.timed_out = stats.timed_out + 1;
                },
            }
            i = i + 1;
        }
        assert(rows.subrange(0, i as int) =~= rows);
        stats
    }

    /// Sweeps, at `now`, the completed and failed tasks that were last
    /// updated more than `retention_days` days ago. The sweep of the table
    /// takes both kinds and is counted as `completed`; the failed tasks are
    /// then looked through once more, which finds none left to delete.
    pub fn cleanup_tasks_at(&mut self, retention_days: i64, now: i64) -> (r: CleanupStats)
        requires
            old(self).wf(),
        ensures
            final(self).wf(),
            final(self).same_registries(old(self)),
            final(self).tasks() == rows_except(
                old(self).tasks(),
                RowFilter::Expired(retention_cutoff(now, retention_days)),
            ),
            r.completed == old(self).tasks().len() - final(self).tasks().len(),
            r.failed == 0,
            final(self).in_flight() == old(self).in_flight(),
            in_order_until(old(self).tasks(), now) ==> in_order_until(final(self).tasks(), now),
    {
        proof {
            if in_order_until(old(self).tasks(), now) {
                lemma_removal_keeps_order(
                    old(self).tasks(),
                    RowFilter::Expired(retention_cutoff(now, retention_days)),
                    now,
                );
            }
        }
        let span: i128 = (retention_days as i128) * 86_400_000;
        let at: i128 = now as i128 - span;
        let cutoff: i64 = if at < i64::MIN as i128 {
            i64::MIN
        } else if at > i64::MAX as i128 {
            i64::MAX
        } else {
            at as i64
        };
        assert(cutoff == retention_cutoff(now, retention_days));
        let ghost rows = self.storage@;
        let ghost filter = RowFilter::Expired(cutoff);
        let mut stats = CleanupStats::default();
        stats.completed = self.storage.cleanup_old(cutoff);
        let ghost swept = self.storage@;
        let failed_tasks = self.storage.get_by_status(&TaskStatus::Failed(String::new()));
        let mut i: usize = 0;
        while i < failed_tasks.len()
            invariant
                i <= failed_tasks.len(),
                self.storage@ == swept,
                self.storage.wf(),
                swept == rows_except(rows, filter),
                filter == RowFilter::Expired(cutoff),
                failed_tasks.deep_view() == sorted_by(
                    rows_where(swept, RowFilter::Kind(StatusKind::Failed)),
                    RowOrder::Lenience,
                ),
                stats.failed == 0,
                stats.completed == rows.len() - swept.len(),
                self.processors == old(self).processors,
                self.function_callbacks == old(self).function_callbacks,
                self.event_callback == old(self).event_callback,
                self.processing_tasks == old(self).processing_tasks,
            decreases failed_tasks.len() - i,
        {
            proof {
                let t = failed_tasks.deep_view()[i as int];
                assert(failed_tasks[i as int]@ == t);
                lemma_sorted_rows_are_rows(
                    swept,
                    RowFilter::Kind(StatusKind::Failed),
                    RowOrder::Lenience,
                    i as int,
                );
                lemma_sweep_twice(rows, filter);
                let k = choose|k: int| 0 <= k < swept.len() && swept[k] == t;
                assert(!filter.admits(swept[k]));
                assert(t.status is Failed);
                assert(!(t.updated_at < cutoff));
            }
            if failed_tasks[i].updated_at < cutoff {
                self.storage.delete(failed_tasks[i].id.as_str());
                stats.failed = stats.failed + 1;
            }
            i = i + 1;
        }
        proof {
            assert forall|k: int| 0 <= k < self.processing_tasks@.len() implies (lookup(
                self.storage@,
                #[trigger] self.processing_tasks@[k].id@,
            ) matches Some(t) && t.status is Processing) by {
                lemma_lookup_rows_except(rows, filter, self.processing_tasks@[k].id@);
            }
        }
        stats
    }

    /// Sweeps the finished tasks that are older than `retention_days` days
    /// at the current time. Whatever the clock reads, the outcome is the one
    /// `cleanup_tasks_at` gives for that reading.
    pub fn cleanup_tasks(&mut self, retention_days: i64) -> (r: CleanupStats)
        requires
            old(self).wf(),
        ensures
            final(self).wf(),
            final(self).same_registries(old(self)),
            exists|now: i64|
                final(self).tasks() == rows_except(
                    old(self).tasks(),
                    RowFilter::Expired(#[trigger] retention_cutoff(now, retention_days)),
                ),
            r.completed == old(self).tasks().len() - final(self).tasks().len(),
            r.failed == 0,
            final(self).in_flight() == old(self).in_flight(),
    {
        let now = now_millis();
        self.cleanup_tasks_at(retention_days, now)
    }

    /// Gives the pending task `task_id` another priority at `now`. Fails
    /// with "Task not found" when there is no such task, and with "Can only
    /// adjust priority of pending tasks" when the task is not pending;
    /// nothing changes then.
    pub fn update_task_priority_at(
        &mut self,
        task_id: &str,
        new_priority: TaskPriority,
        now: i64,
    ) -> (r: Result<(), String>)
        requires
            old(self).wf(),
        ensures
            final(self).wf(),
            final(self).same_registries(old(self)),
            final(self).in_flight() == old(self).in_flight(),
            stepped(old(self).tasks(), final(self).tasks()),
            in_order_until(old(self).tasks(), now) ==> in_order_until(final(self).tasks(), now),
            match lookup(old(self).tasks(), task_id@) {
                None => r matches Err(m) && m@ == "Task not found"@ && final(self).tasks() == old(self).tasks(),
                Some(t) => if t.status is Pending {
                    r is Ok && final(self).tasks() == upserted(
                        old(self).tasks(),
                        reprioritized(t, new_priority, now),
                    )
                } else {
                    r matches Err(m) && m@ == "Can only adjust priority of pending tasks"@
                        && final(self).tasks() == old(self).tasks()
                },
            },
    {
        proof {
            if in_order_until(old(self).tasks(), now) && holds_id(old(self).tasks(), task_id@) {
                let rows = old(self).tasks();
                let t = rows[row_index(rows, task_id@)];
                assert(t.time_ordered());
                lemma_upsert_keeps_order(rows, reprioritized(t, new_priority, now), now);
            }
        }
        let ghost rows = self.storage@;
        let mut task = match self.storage.get(task_id) {
            Some(t) => t,
            None => {
                return Err(String::from_str("Task not found"));
            },
        };
        if !task.status.is_pending() {
            return Err(String::from_str("Can only adjust priority of pending tasks"));
        }
        task.config.priority = new_priority;
        task.updated_at = now;
        self.storage.create(&task);
        proof {
            lemma_upsert_steps(rows, task@);
            assert forall|k: int| 0 <= k < self.processing_tasks@.len() implies (lookup(
                self.storage@,
                #[trigger] self.processing_tasks@[k].id@,
            ) matches Some(t) && t.status is Processing) by {
                lemma_lookup_upserted(rows, task@, self.processing_tasks@[k].id@);
            }
        }
        Ok(())
    }

    /// Gives the pending task `task_id` another priority at the current
    /// time.
    pub fn update_task_priority(&mut self, task_id: &str, new_priority: TaskPriority) -> (r: Result<
        (),
        String,
    >)
        requires
            old(self).wf(),
        ensures
            final(self).wf(),
            final(self).same_registries(old(self)),
            final(self).in_flight() == old(self).in_flight(),
            stepped(old(self).tasks(), final(self).tasks()),
            match lookup(old(self).tasks(), task_id@) {
                None => r matches Err(m) && m@ == "Task not found"@ && final(self).tasks() == old(self).tasks(),
                Some(t) => if t.status is Pending {
                    r is Ok && exists|now: i64|
                        final(self).tasks() == upserted(
                            old(self).tasks(),
                            #[trigger] reprioritized(t, new_priority, now),
                        )
                } else {
                    r matches Err(m) && m@ == "Can only adjust priority of pending tasks"@
                        && final(self).tasks() == old(self).tasks()
                },
            },
    {
        let now = now_millis();
        self.update_task_priority_at(task_id, new_priority, now)
    }

    /// The function callback registered under `name`, where there is one.
    pub closed spec fn callback_of(&self, name: Seq<char>) -> FunctionCallback<F> {
        self.function_callbacks@[choose|i: int|
            0 <= i < self.function_callbacks@.len() && (#[trigger] self.function_callbacks@[i]).name@
                == name].callback
    }

    fn callback_index(&self, name: &str) -> (r: Option<usize>)
        requires
            self.wf(),
        ensures
            r is Some == self.has_callback(name@),
            r matches Some(i) ==> i < self.function_callbacks@.len()
                && self.function_callbacks@[i as int].callback == self.callback_of(name@)
                && self.function_callbacks@[i as int].name@ == name@,
    {
        let mut i: usize = 0;
        while i < self.function_callbacks.len()
            invariant
                i <= self.function_callbacks.len(),
                self.wf(),
                forall|j: int| 0 <= j < i ==> self.callback_names()[j] != name@,
            decreases self.function_callbacks.len() - i,
        {
            if str_eq(self.function_callbacks[i].name.as_str(), name) {
                proof {
                    assert(self.callback_names()[i as int] == name@);
                    let j = choose|j: int|
                        0 <= j < self.function_callbacks@.len() && (
                        #[trigger] self.function_callbacks@[j]).name@ == name@;
                    if j < i {
                        assert(self.function_callbacks@[j].name@
                            != self.function_callbacks@[i as int].name@);
                    } else if i < j {
                        assert(self.function_callbacks@[i as int].name@
                            != self.function_callbacks@[j].name@);
                    }
                }
                return Some(i);
            }
            i = i + 1;
        }
        proof {
            if self.has_callback(name@) {
                let j = choose|j: int|
                    0 <= j < self.callback_names().len() && self.callback_names()[j] == name@;
                assert(false);
            }
        }
        None
    }

    /// Registers `callback` under `name`, in place of a callback registered
    /// under that name before. The function must take every task and every
    /// message.
    pub fn register_function_callback(&mut self, name: &str, callback: F)
        requires
            old(self).wf(),
            forall|task: &Task, message: &str| call_requires(callback, (task, message)),
        ensures
            final(self).wf(),
            final(self).tasks() == old(self).tasks(),
            final(self).in_flight() == old(self).in_flight(),
            forall|kind: TaskType| final(self).serves(kind) == old(self).serves(kind),
            final(self).callback_names() == if old(self).has_callback(name@) {
                old(self).callback_names()
            } else {
                old(self).callback_names().push(name@)
            },
            final(self).callback_of(name@).callback == callback,
            final(self).event_channel() == old(self).event_channel(),
    {
        let found = self.callback_index(name);
        let ghost before = self.function_callbacks@;
        let entry = NamedCallback {
            name: String::from_str(name),
            callback: FunctionCallback::new(callback),
        };
        match found {
            Some(i) => {
                self.function_callbacks.set(i, entry);
                assert(self.callback_names() =~= old(self).callback_names());
            },
            None => {
                self.function_callbacks.push(entry);
                assert(self.callback_names() =~= old(self).callback_names().push(name@));
                assert forall|i: int, j: int|
                    0 <= i < j < self.function_callbacks@.len() implies self.function_callbacks@[i].name@
                    != self.function_callbacks@[j].name@ by {
                    if j == before.len() {
                        assert(old(self).callback_names()[i] == before[i].name@);
                    }
                }
            },
        }
        proof {
            assert(self.in_flight() =~= old(self).in_flight());
            let at = if found is Some { found.unwrap() as int } else { before.len() as int };
            assert(self.function_callbacks@[at].name@ == name@);
            let j = choose|j: int|
                0 <= j < self.function_callbacks@.len() && (
                #[trigger] self.function_callbacks@[j]).name@ == name@;
            if j < at {
                assert(self.function_callbacks@[j].name@ != self.function_callbacks@[at].name@);
            } else if at < j {
                assert(self.function_callbacks@[at].name@ != self.function_callbacks@[j].name@);
            }
        }
    }

    /// The function callback registered under `name`. Fails with "Callback
    /// function not found: " and the name when there is none.
    pub fn get_function_callback(&self, name: &str) -> (r: Result<&FunctionCallback<F>, String>)
        requires
            self.wf(),
        ensures
            r is Ok == self.has_callback(name@),
            r matches Ok(cb) ==> *cb == self.callback_of(name@) && cb.callable(),
            r matches Err(m) ==> m@ == "Callback function not found: "@ + name@,
    {
        match self.callback_index(name) {
            Some(i) => Ok(&self.function_callbacks[i].callback),
            None => Err(join("Callback function not found: ", name)),
        }
    }

    /// `r` is an answer that the report of `task` may give: for an HTTP
    /// callback what is to be posted; for a function callback the answer of
    /// the function registered under the name, called with the task and the
    /// message; for an event callback success or "channel closed"; nothing
    /// for a task whose state is not reported or that names no callback.
    pub open spec fn answers_callback(
        &self,
        task: &Task,
        r: Result<Option<HttpDelivery>, String>,
    ) -> bool {
        match task@.config.callback_type {
            CallbackTypeView::NoCallback => r matches Ok(None),
            CallbackTypeView::Http { url } => match report_of(task@) {
                Report::Broken => r matches Err(m) && m@ == "Completed task has no result"@,
                _ => r matches Ok(d) && d.deep_view() == http_delivery(task@, url),
            },
            CallbackTypeView::Function { name } => if !self.has_callback(name) {
                r matches Err(m) && m@ == "Callback function not found: "@ + name
            } else {
                match report_of(task@) {
                    Report::Nothing => r matches Ok(None),
                    Report::Broken => r matches Err(m) && m@ == "Completed task has no result"@,
                    Report::Outcome(result) => exists|answer: Result<(), String>|
                        #[trigger] self.callback_of(name).called_with(
                            task,
                            completion_message(result),
                            answer,
                        ) && r == forwarded(answer),
                    Report::Error(error) => exists|answer: Result<(), String>|
                        #[trigger] self.callback_of(name).called_with(
                            task,
                            failure_message(error),
                            answer,
                        ) && r == forwarded(answer),
                }
            },
            CallbackTypeView::Event => match report_of(task@) {
                Report::Nothing => r matches Ok(None),
                Report::Broken => r matches Err(m) && m@ == "Completed task has no result"@,
                _ => r matches Ok(None) || (r matches Err(m) && m@ == "channel closed"@),
            },
        }
    }

    /// Reports the state of `task` through the callback that its
    /// configuration names. Only a completed task, with its result, and a
    /// failed task, with its message, are reported.
    ///
    /// An HTTP callback is not sent here: what is to be posted is returned.
    /// A function callback is called, and its answer is the answer; a name
    /// without a registered function fails with "Callback function not
    /// found: " and the name, whatever the task's state. An event callback
    /// is published, and fails with "channel closed" when nobody listens. A
    /// task that is marked completed but has no result fails with
    /// "Completed task has no result".
    pub fn handle_callback(&self, task: &Task) -> (r: Result<Option<HttpDelivery>, String>)
        requires
            self.wf(),
        ensures
            self.answers_callback(task, r),
    {
        match &task.config.callback_type {
            CallbackType::Http { url } => {
                let callback = HttpCallback::new(url.clone());
                match &task.status {
                    TaskStatus::Completed => match &task.result {
                        Some(result) => Ok(
                            Some(
                                HttpDelivery {
                                    url: url.clone(),
                                    payload: callback.on_complete(task, result),
                                },
                            ),
                        ),
                        None => Err(String::from_str("Completed task has no result")),
                    },
                    TaskStatus::Failed(error) => Ok(
                        Some(
                            HttpDelivery {
                                url: url.clone(),
                                payload: callback.on_error(task, error.as_str()),
                            },
                        ),
                    ),
                    _ => Ok(None),
                }
            },
            CallbackType::Function { name } => {
                let callback = match self.get_function_callback(name.as_str()) {
                    Ok(cb) => cb,
                    Err(m) => {
                        return Err(m);
                    },
                };
                match &task.status {
                    TaskStatus::Completed => match &task.result {
                        Some(result) => {
                            let answer = callback.on_complete(task, result);
                            let r = forward(answer);
                            assert(self.callback_of(name@).called_with(
                                task,
                                completion_message(result@),
                                answer,
                            ));
                            r
                        },
                        None => Err(String::from_str("Completed task has no result")),
                    },
                    TaskStatus::Failed(error) => {
                        let answer = callback.on_error(task, error.as_str());
                        let r = forward(answer);
                        assert(self.callback_of(name@).called_with(
                            task,
                            failure_message(error@),
                            answer,
                        ));
                        r
                    },
                    _ => Ok(None),
                }
            },
            CallbackType::Event => {
                match &task.status {
                    TaskStatus::Completed => match &task.result {
                        Some(result) => match self.event_callback.on_complete(task, result) {
                            Ok(()) => Ok(None),
                            Err(m) => Err(m),
                        },
                        None => Err(String::from_str("Completed task has no result")),
                    },
                    TaskStatus::Failed(error) => match self.event_callback.on_error(
                        task,
                        error.as_str(),
                    ) {
                        Ok(()) => Ok(None),
                        Err(m) => Err(m),
                    },
                    _ => Ok(None),
                }
            },
            CallbackType::NoCallback => Ok(None),
        }
    }

    /// A task that is not being processed is not in flight.
    pub proof fn lemma_not_in_flight(&self, id: Seq<char>)
        requires
            self.wf(),
            !processing(self.tasks(), id),
        ensures
            !tracks(self.in_flight(), id),
    {
        self.lemma_invariant();
    }

    /// The processors, the function callbacks and the event channel are
    /// those of `other`.
    pub closed spec fn same_registries(&self, other: &Self) -> bool {
        &&& self.processors == other.processors
        &&& self.function_callbacks == other.function_callbacks
        &&& self.event_callback == other.event_callback
    }

    /// `after` is this manager once the failure of the task `id` with
    /// `error` at `now` was recorded.
    pub open spec fn failure_recorded(&self, id: Seq<char>, error: Seq<char>, now: i64, after: &Self) -> bool {
        if processing(self.tasks(), id) {
            &&& after.tasks() == upserted(
                self.tasks(),
                after_failure(lookup(self.tasks(), id).unwrap(), error, now),
            )
            &&& after.in_flight() == pruned(self.in_flight(), Dropped::Task(id))
            &&& lookup(after.tasks(), id) == Some(
                after_failure(lookup(self.tasks(), id).unwrap(), error, now),
            )
        } else {
            &&& after.tasks() == self.tasks()
            &&& after.in_flight() == self.in_flight()
        }
    }

    /// Registries that are the same serve the same kinds, know the same
    /// callbacks and publish on the same channel.
    pub proof fn lemma_same_registries(&self, other: &Self)
        requires
            self.same_registries(other),
        ensures
            forall|kind: TaskType| self.serves(kind) == other.serves(kind),
            forall|kind: TaskType| self.processor_of(kind) == other.processor_of(kind),
            self.callback_names() == other.callback_names(),
            forall|name: Seq<char>| self.callback_of(name) == other.callback_of(name),
            self.event_channel() == other.event_channel(),
    {
    }

    /// A manager has the registries it has.
    pub proof fn lemma_registries_same(&self)
        ensures
            self.same_registries(self),
    {
    }

    /// Being the same registries carries over a chain of managers.
    pub proof fn lemma_registries_chain(&self, middle: &Self, first: &Self)
        requires
            self.same_registries(middle),
            middle.same_registries(first),
        ensures
            self.same_registries(first),
    {
    }
}

/// Which entries of the registry of tasks in flight a pruning drops.
enum Pruning<'a> {
    Task(&'a str),
    Settled,
    Stale(i64),
}

impl<'a> Pruning<'a> {
    spec fn dropped(self, rows: Seq<TaskView>) -> Dropped {
        match self {
            Pruning::Task(id) => Dropped::Task(id@),
            Pruning::Settled => Dropped::Settled(rows),
            Pruning::Stale(now) => Dropped::Stale(now),
        }
    }
}

} // verus!
