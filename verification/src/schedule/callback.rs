//! Reporting the outcome of a task: over HTTP, to a registered function, or
//! on an in-process event channel.

use crate::schedule::types::{
    Task, TaskResult, TaskResultView, TaskStatus, TaskStatusView, };
use crate::text::join;
use vstd::prelude::*;
use vstd::string::*;

verus! {

/// What a callback carries besides the task's id and status.
#[derive(Debug, PartialEq, Eq)]
pub enum CallbackData {
    Status(TaskStatus),
    Outcome(TaskResult),
    Error(String),
}

/// The mathematical view of a `CallbackData`: texts are sequences of characters,
/// vectors are sequences.
pub enum CallbackDataView {
    Status(TaskStatusView),
    Outcome(TaskResultView),
    Error(Seq<char>),
}

impl DeepView for CallbackData {
    type V = CallbackDataView;

    open spec fn deep_view(&self) -> CallbackDataView {
        match self {
            CallbackData::Status(s) => CallbackDataView::Status(s@),
            CallbackData::Outcome(r) => CallbackDataView::Outcome(r@),
            CallbackData::Error(e) => CallbackDataView::Error(e@),
        }
    }
}

/// The body of an HTTP callback.
#[derive(Debug, PartialEq, Eq)]
pub struct CallbackPayload {
    pub task_id: String,
    pub status: TaskStatus,
    pub data: CallbackData,
}

/// The mathematical view of a `CallbackPayload`: texts are sequences of characters,
/// vectors are sequences.
pub struct CallbackPayloadView {
    pub task_id: Seq<char>,
    pub status: TaskStatusView,
    pub data: CallbackDataView,
}

impl DeepView for CallbackPayload {
    type V = CallbackPayloadView;

    open spec fn deep_view(&self) -> CallbackPayloadView {
        CallbackPayloadView {
            task_id: self.task_id@,
            status: self.status@,
            data: self.data.deep_view(),
        }
    }
}

impl View for CallbackPayload {
    type V = CallbackPayloadView;

    open spec fn view(&self) -> CallbackPayloadView {
        self.deep_view()
    }
}

/// A callback that is posted to a URL. The library makes the body; sending
/// it is left to the caller.
#[derive(Debug, PartialEq, Eq)]
pub struct HttpCallback {
    pub callback_url: String,
}

impl HttpCallback {
    /// A callback to `callback_url`.
    pub fn new(callback_url: String) -> (r: Self)
        ensures
            r.callback_url == callback_url,
    {
        HttpCallback { callback_url }
    }

    /// The body that reports a change of status.
    pub fn on_status_change(&self, task: &Task, status: TaskStatus) -> (r: CallbackPayload)
        ensures
            r@ == (CallbackPayloadView {
                task_id: task@.id,
                status: status@,
                data: CallbackDataView::Status(status@),
            }),
    {
        CallbackPayload {
            task_id: task.id.clone(),
            status: status.clone(),
            data: CallbackData::Status(status),
        }
    }

    /// The body that reports a completion with its result.
    pub fn on_complete(&self, task: &Task, result: &TaskResult) -> (r: CallbackPayload)
        ensures
            r@ == (CallbackPayloadView {
                task_id: task@.id,
                status: TaskStatusView::Completed,
                data: CallbackDataView::Outcome(result@),
            }),
    {
        CallbackPayload {
            task_id: task.id.clone(),
            status: TaskStatus::Completed,
            data: CallbackData::Outcome(result.clone()),
        }
    }

    /// The body that reports a failure with its message.
    pub fn on_error(&self, task: &Task, error: &str) -> (r: CallbackPayload)
        ensures
            r@ == (CallbackPayloadView {
                task_id: task@.id,
                status: TaskStatusView::Failed(error@),
                data: CallbackDataView::Error(error@),
            }),
    {
        CallbackPayload {
            task_id: task.id.clone(),
            status: TaskStatus::Failed(String::from_str(error)),
            data: CallbackData::Error(String::from_str(error)),
        }
    }
}

/// The message a function callback gets for a change of status.
pub open spec fn status_message(status: TaskStatusView) -> Seq<char> {
    "Status changed to: "@ + status.text()
}

/// The message a function callback gets for a completion.
pub open spec fn completion_message(result: TaskResultView) -> Seq<char> {
    "Task completed with result: "@ + result.text()
}

/// The message a function callback gets for a failure.
pub open spec fn failure_message(error: Seq<char>) -> Seq<char> {
    "Task failed: "@ + error
}

/// A callback that calls a function of the program with the task and a
/// message.
pub struct FunctionCallback<F> {
    pub callback: F,
}

impl<F: Fn(&Task, &str) -> Result<(), String>> FunctionCallback<F> {
    /// The function may be called with every task and every message.
    pub open spec fn callable(&self) -> bool {
        forall|task: &Task, message: &str| call_requires(self.callback, (task, message))
    }

    /// The function was called with `task` and a message that reads
    /// `message`, and returned `r`.
    pub open spec fn called_with(&self, task: &Task, message: Seq<char>, r: Result<(), String>) -> bool {
        exists|m: &str| m@ == message && call_ensures(self.callback, (task, m), r)
    }

    /// A callback to `callback`.
    pub fn new(callback: F) -> (r: Self)
        ensures
            r.callback == callback,
    {
        FunctionCallback { callback }
    }

    /// Reports a change of status; the answer is the function's.
    pub fn on_status_change(&self, task: &Task, status: TaskStatus) -> (r: Result<(), String>)
        requires
            self.callable(),
        ensures
            self.called_with(task, status_message(status@), r),
    {
        let text = status.to_string();
        let message = join("Status changed to: ", text.as_str());
        (self.callback)(task, message.as_str())
    }

    /// Reports a completion; the answer is the function's.
    pub fn on_complete(&self, task: &Task, result: &TaskResult) -> (r: Result<(), String>)
        requires
            self.callable(),
        ensures
            self.called_with(task, completion_message(result@), r),
    {
        let text = result.to_string();
        let message = join("Task completed with result: ", text.as_str());
        (self.callback)(task, message.as_str())
    }

    /// Reports a failure; the answer is the function's.
    pub fn on_error(&self, task: &Task, error: &str) -> (r: Result<(), String>)
        requires
            self.callable(),
        ensures
            self.called_with(task, failure_message(error@), r),
    {
        let message = join("Task failed: ", error);
        (self.callback)(task, message.as_str())
    }
}

/// What is published on the event channel.
#[derive(Debug, PartialEq, Eq)]
pub enum TaskEvent {
    StatusChanged { task_id: String, status: TaskStatus },
    Completed { task_id: String, result: TaskResult },
    Failed { task_id: String, error: String },
}

/// The mathematical view of a `TaskEvent`: texts are sequences of characters,
/// vectors are sequences.
pub enum TaskEventView {
    StatusChanged { task_id: Seq<char>, status: TaskStatusView },
    Completed { task_id: Seq<char>, result: TaskResultView },
    Failed { task_id: Seq<char>, error: Seq<char> },
}

impl DeepView for TaskEvent {
    type V = TaskEventView;

    open spec fn deep_view(&self) -> TaskEventView {
        match self {
            TaskEvent::StatusChanged { task_id, status } => TaskEventView::StatusChanged {
                task_id: task_id@,
                status: status@,
            },
            TaskEvent::Completed { task_id, result } => TaskEventView::Completed {
                task_id: task_id@,
                result: result@,
            },
            TaskEvent::Failed { task_id, error } => TaskEventView::Failed {
                task_id: task_id@,
                error: error@,
            },
        }
    }
}

impl View for TaskEvent {
    type V = TaskEventView;

    open spec fn view(&self) -> TaskEventView {
        self.deep_view()
    }
}

impl Clone for TaskEvent {
    fn clone(&self) -> (r: Self)
        ensures
            r@ == self@,
    {
        match self {
            TaskEvent::StatusChanged { task_id, status } => TaskEvent::StatusChanged {
                task_id: task_id.clone(),
                status: status.clone(),
            },
            TaskEvent::Completed { task_id, result } => TaskEvent::Completed {
                task_id: task_id.clone(),
                result: result.clone(),
            },
            TaskEvent::Failed { task_id, error } => TaskEvent::Failed {
                task_id: task_id.clone(),
                error: error.clone(),
            },
        }
    }
}

/// The sending half of a broadcast channel of the `tokio` crate.
#[verifier::external_type_specification]
#[verifier::external_body]
#[verifier::reject_recursive_types(T)]
pub struct ExSender<T>(tokio::sync::broadcast::Sender<T>);

/// The receiving half of a broadcast channel of the `tokio` crate.
#[verifier::external_type_specification]
#[verifier::external_body]
#[verifier::reject_recursive_types(T)]
pub struct ExReceiver<T>(tokio::sync::broadcast::Receiver<T>);

/// Largest capacity a broadcast channel can be made with.
pub const MAX_EVENT_CAPACITY: usize = usize::MAX / 2;

/// The number of events that the channel of a sender was made to buffer.
pub uninterp spec fn channel_capacity(sender: tokio::sync::broadcast::Sender<TaskEvent>) -> nat;

/// Opens a channel with `tokio::sync::broadcast::channel`. Trusted: the
/// channel of the sender that comes back was made to buffer `capacity`
/// events (it keeps at least that many: the channel rounds its buffer up to
/// a power of two). Nothing is claimed of the receiver. A capacity of zero
/// or above half the machine word is left out, because the channel refuses
/// it.
#[verifier::external_body]
fn open_channel(capacity: usize) -> (r: (
    tokio::sync::broadcast::Sender<TaskEvent>,
    tokio::sync::broadcast::Receiver<TaskEvent>,
))
    requires
        0 < capacity <= MAX_EVENT_CAPACITY,
    ensures
        channel_capacity(r.0) == capacity,
{
    tokio::sync::broadcast::channel(capacity)
}

/// Sends an event with `Sender::send`. Trusted: on success the number of
/// receivers that are subscribed is returned, and it is not zero; on
/// failure, which means that nobody listens, the event comes back.
#[verifier::external_body]
fn send_event(sender: &tokio::sync::broadcast::Sender<TaskEvent>, event: TaskEvent) -> (r: Result<
    usize,
    TaskEvent,
>)
    ensures
        r matches Ok(n) ==> n > 0,
        r matches Err(e) ==> e == event,
{
    match sender.send(event) {
        Ok(n) => Ok(n),
        Err(e) => Err(e.0),
    }
}

/// A callback that publishes events on a broadcast channel with a bounded
/// buffer; a receiver that falls behind loses the oldest events.
pub struct EventCallback {
    pub sender: tokio::sync::broadcast::Sender<TaskEvent>,
}

impl EventCallback {
    /// The number of events that the callback's channel was made to buffer.
    pub open spec fn capacity(&self) -> nat {
        channel_capacity(self.sender)
    }

    /// A callback on a new channel that buffers `capacity` events, and the
    /// channel's first receiver.
    pub fn new(capacity: usize) -> (r: (Self, tokio::sync::broadcast::Receiver<TaskEvent>))
        requires
            0 < capacity <= MAX_EVENT_CAPACITY,
        ensures
            r.0.capacity() == capacity,
    {
        let (sender, receiver) = open_channel(capacity);
        (EventCallback { sender }, receiver)
    }

    /// A callback on a new channel that buffers `capacity` events, or `None`
    /// for a capacity that a channel cannot have.
    pub fn try_new(capacity: usize) -> (r: Option<
        (Self, tokio::sync::broadcast::Receiver<TaskEvent>),
    >)
        ensures
            r is Some == (0 < capacity <= MAX_EVENT_CAPACITY),
            r matches Some(made) ==> made.0.capacity() == capacity,
    {
        if capacity == 0 || capacity > MAX_EVENT_CAPACITY {
            None
        } else {
            Some(Self::new(capacity))
        }
    }

    /// The event that reports a change of status.
    pub fn status_event(task: &Task, status: TaskStatus) -> (r: TaskEvent)
        ensures
            r@ == (TaskEventView::StatusChanged { task_id: task@.id, status: status@ }),
    {
        TaskEvent::StatusChanged { task_id: task.id.clone(), status }
    }

    /// The event that reports a completion.
    pub fn completed_event(task: &Task, result: &TaskResult) -> (r: TaskEvent)
        ensures
            r@ == (TaskEventView::Completed { task_id: task@.id, result: result@ }),
    {
        TaskEvent::Completed { task_id: task.id.clone(), result: result.clone() }
    }

    /// The event that reports a failure.
    pub fn failed_event(task: &Task, error: &str) -> (r: TaskEvent)
        ensures
            r@ == (TaskEventView::Failed { task_id: task@.id, error: error@ }),
    {
        TaskEvent::Failed { task_id: task.id.clone(), error: String::from_str(error) }
    }

    /// What a publication answers, given what the channel answered to the
    /// send: success when the event went to at least one listener, "channel
    /// closed" when the event came back because nobody listens.
    pub fn published(sent: Result<usize, TaskEvent>) -> (r: Result<(), String>)
        ensures
            r is Ok == sent is Ok,
            r matches Err(m) ==> m@ == "channel closed"@,
    {
        match sent {
            Ok(_) => Ok(()),
            Err(_) => Err(String::from_str("channel closed")),
        }
    }

    /// Publishes `event`. Fails with "channel closed" when nobody listens;
    /// whether somebody does is not known to the library.
    pub fn publish(&self, event: TaskEvent) -> (r: Result<(), String>)
        ensures
            r matches Err(m) ==> m@ == "channel closed"@,
    {
        Self::published(send_event(&self.sender, event))
    }

    /// Publishes a change of status.
    pub fn on_status_change(&self, task: &Task, status: TaskStatus) -> (r: Result<(), String>)
        ensures
            r matches Err(m) ==> m@ == "channel closed"@,
    {
        self.publish(Self::status_event(task, status))
    }

    /// Publishes a completion.
    pub fn on_complete(&self, task: &Task, result: &TaskResult) -> (r: Result<(), String>)
        ensures
            r matches Err(m) ==> m@ == "channel closed"@,
    {
        self.publish(Self::completed_event(task, result))
    }

    /// Publishes a failure.
    pub fn on_error(&self, task: &Task, error: &str) -> (r: Result<(), String>)
        ensures
            r matches Err(m) ==> m@ == "channel closed"@,
    {
        self.publish(Self::failed_event(task, error))
    }
}

} // verus!
