//! The task record and the values it is made of, each with the mathematical
//! view that the contracts of the library speak about.

use crate::text::{copy_opt, debug_quoted, join, str_eq};
use vstd::prelude::*;
use vstd::string::*;

verus! {

/// The kind of work a task asks for.
#[derive(Debug, Clone, Copy, PartialEq, Eq, Hash, Structural)]
pub enum TaskType {
    Transcribe,
    VoiceprintRecognition,
    NoiseReduction,
}

impl TaskType {
    /// The variant's name.
    pub open spec fn text(self) -> Seq<char> {
        match self {
            TaskType::Transcribe => "Transcribe"@,
            TaskType::VoiceprintRecognition => "VoiceprintRecognition"@,
            TaskType::NoiseReduction => "NoiseReduction"@,
        }
    }

    /// Prints the variant's name.
    pub fn to_string(&self) -> (r: String)
        ensures
            r@ == self.text(),
    {
        match self {
            TaskType::Transcribe => String::from_str("Transcribe"),
            TaskType::VoiceprintRecognition => String::from_str("VoiceprintRecognition"),
            TaskType::NoiseReduction => String::from_str("NoiseReduction"),
        }
    }
}

/// Urgency of a task. A smaller rank is served first.
#[derive(Debug, Clone, Copy, PartialEq, Eq, Structural)]
pub enum TaskPriority {
    Critical,
    High,
    Normal,
    Low,
}

impl Default for TaskPriority {
    fn default() -> (r: Self)
        ensures
            r == TaskPriority::Normal,
    {
        TaskPriority::Normal
    }
}

impl TaskPriority {
    /// Position in the serving order: Critical 0, High 1, Normal 2, Low 3.
    pub open spec fn spec_rank(self) -> int {
        match self {
            TaskPriority::Critical => 0,
            TaskPriority::High => 1,
            TaskPriority::Normal => 2,
            TaskPriority::Low => 3,
        }
    }

    /// Position in the serving order.
    pub fn rank(&self) -> (r: i32)
        ensures
            r == self.spec_rank(),
    {
        match self {
            TaskPriority::Critical => 0,
            TaskPriority::High => 1,
            TaskPriority::Normal => 2,
            TaskPriority::Low => 3,
        }
    }
}

/// Where the terminal state of a task is reported.
#[derive(Debug, PartialEq, Eq)]
pub enum CallbackType {
    Http { url: String },
    Function { name: String },
    Event,
    NoCallback,
}

/// The mathematical view of a `CallbackType`: texts are sequences of characters,
/// vectors are sequences.
pub enum CallbackTypeView {
    Http { url: Seq<char> },
    Function { name: Seq<char> },
    Event,
    NoCallback,
}

impl DeepView for CallbackType {
    type V = CallbackTypeView;

    open spec fn deep_view(&self) -> CallbackTypeView {
        match self {
            CallbackType::Http { url } => CallbackTypeView::Http { url: url@ },
            CallbackType::Function { name } => CallbackTypeView::Function { name: name@ },
            CallbackType::Event => CallbackTypeView::Event,
            CallbackType::NoCallback => CallbackTypeView::NoCallback,
        }
    }
}

impl View for CallbackType {
    type V = CallbackTypeView;

    open spec fn view(&self) -> CallbackTypeView {
        self.deep_view()
    }
}

impl Clone for CallbackType {
    fn clone(&self) -> (r: Self)
        ensures
            r@ == self@,
    {
        match self {
            CallbackType::Http { url } => CallbackType::Http { url: url.clone() },
            CallbackType::Function { name } => CallbackType::Function { name: name.clone() },
            CallbackType::Event => CallbackType::Event,
            CallbackType::NoCallback => CallbackType::NoCallback,
        }
    }
}

/// Parameters of a transcription.
#[derive(Debug, PartialEq, Eq)]
pub struct TranscribeParams {
    pub language: Option<String>,
    pub speaker_diarization: bool,
    pub emotion_recognition: bool,
    pub filter_dirty_words: bool,
}

/// The mathematical view of a `TranscribeParams`: texts are sequences of characters,
/// vectors are sequences.
pub struct TranscribeParamsView {
    pub language: Option<Seq<char>>,
    pub speaker_diarization: bool,
    pub emotion_recognition: bool,
    pub filter_dirty_words: bool,
}

impl DeepView for TranscribeParams {
    type V = TranscribeParamsView;

    open spec fn deep_view(&self) -> TranscribeParamsView {
        TranscribeParamsView {
            language: self.language.deep_view(),
            speaker_diarization: self.speaker_diarization,
            emotion_recognition: self.emotion_recognition,
            filter_dirty_words: self.filter_dirty_words,
        }
    }
}

impl View for TranscribeParams {
    type V = TranscribeParamsView;

    open spec fn view(&self) -> TranscribeParamsView {
        self.deep_view()
    }
}

impl Clone for TranscribeParams {
    fn clone(&self) -> (r: Self)
        ensures
            r@ == self@,
    {
        TranscribeParams {
            language: copy_opt(&self.language),
            speaker_diarization: self.speaker_diarization,
            emotion_recognition: self.emotion_recognition,
            filter_dirty_words: self.filter_dirty_words,
        }
    }
}

/// Parameters of a voiceprint recognition. None yet.
#[derive(Debug, Clone, Copy, PartialEq, Eq, Structural)]
pub struct VoiceprintParams {}

/// Parameters of a noise reduction. None yet.
#[derive(Debug, Clone, Copy, PartialEq, Eq, Structural)]
pub struct NoiseReductionParams {}

/// The parameter record of a task, tagged by kind.
#[derive(Debug, PartialEq, Eq)]
pub enum TaskParams {
    Transcribe(TranscribeParams),
    VoiceprintRecognition(VoiceprintParams),
    NoiseReduction(NoiseReductionParams),
}

/// The mathematical view of a `TaskParams`: texts are sequences of characters,
/// vectors are sequences.
pub enum TaskParamsView {
    Transcribe(TranscribeParamsView),
    VoiceprintRecognition,
    NoiseReduction,
}

impl DeepView for TaskParams {
    type V = TaskParamsView;

    open spec fn deep_view(&self) -> TaskParamsView {
        match self {
            TaskParams::Transcribe(p) => TaskParamsView::Transcribe(p@),
            TaskParams::VoiceprintRecognition(_) => TaskParamsView::VoiceprintRecognition,
            TaskParams::NoiseReduction(_) => TaskParamsView::NoiseReduction,
        }
    }
}

impl View for TaskParams {
    type V = TaskParamsView;

    open spec fn view(&self) -> TaskParamsView {
        self.deep_view()
    }
}

impl Clone for TaskParams {
    fn clone(&self) -> (r: Self)
        ensures
            r@ == self@,
    {
        match self {
            TaskParams::Transcribe(p) => TaskParams::Transcribe(p.clone()),
            TaskParams::VoiceprintRecognition(_) => TaskParams::VoiceprintRecognition(
                VoiceprintParams {  },
            ),
            TaskParams::NoiseReduction(_) => TaskParams::NoiseReduction(NoiseReductionParams {  }),
        }
    }
}

/// What a client fixes when it submits a task. `input_path` names the
/// materialized input; `timeout` is in seconds.
#[derive(Debug, PartialEq, Eq)]
pub struct TaskConfig {
    pub task_type: TaskType,
    pub input_path: String,
    pub callback_type: CallbackType,
    pub params: TaskParams,
    pub priority: TaskPriority,
    pub retry_count: u32,
    pub max_retries: u32,
    pub timeout: Option<u64>,
}

/// The mathematical view of a `TaskConfig`: texts are sequences of characters,
/// vectors are sequences.
pub struct TaskConfigView {
    pub task_type: TaskType,
    pub input_path: Seq<char>,
    pub callback_type: CallbackTypeView,
    pub params: TaskParamsView,
    pub priority: TaskPriority,
    pub retry_count: u32,
    pub max_retries: u32,
    pub timeout: Option<u64>,
}

impl DeepView for TaskConfig {
    type V = TaskConfigView;

    open spec fn deep_view(&self) -> TaskConfigView {
        TaskConfigView {
            task_type: self.task_type,
            input_path: self.input_path@,
            callback_type: self.callback_type@,
            params: self.params@,
            priority: self.priority,
            retry_count: self.retry_count,
            max_retries: self.max_retries,
            timeout: self.timeout,
        }
    }
}

impl View for TaskConfig {
    type V = TaskConfigView;

    open spec fn view(&self) -> TaskConfigView {
        self.deep_view()
    }
}

impl Clone for TaskConfig {
    fn clone(&self) -> (r: Self)
        ensures
            r@ == self@,
    {
        TaskConfig {
            task_type: self.task_type,
            input_path: self.input_path.clone(),
            callback_type: self.callback_type.clone(),
            params: self.params.clone(),
            priority: self.priority,
            retry_count: self.retry_count,
            max_retries: self.max_retries,
            timeout: self.timeout,
        }
    }
}

/// The variant of a status, without the message that a failure carries.
#[derive(Debug, Clone, Copy, PartialEq, Eq, Structural)]
pub enum StatusKind {
    Pending,
    Processing,
    Completed,
    Failed,
    Retrying,
    TimedOut,
}

/// Where a task stands in its lifecycle. `Failed` carries the error message.
#[derive(Debug, PartialEq, Eq)]
pub enum TaskStatus {
    Pending,
    Processing,
    Completed,
    Failed(String),
    Retrying,
    TimedOut,
}

/// The mathematical view of a `TaskStatus`: texts are sequences of characters,
/// vectors are sequences.
pub enum TaskStatusView {
    Pending,
    Processing,
    Completed,
    Failed(Seq<char>),
    Retrying,
    TimedOut,
}

impl TaskStatusView {
    /// Completed, Failed and TimedOut end a task's life.
    pub open spec fn is_terminal(self) -> bool {
        self is Completed || self is Failed || self is TimedOut
    }

    /// The variant of the status.
    pub open spec fn kind(self) -> StatusKind {
        match self {
            TaskStatusView::Pending => StatusKind::Pending,
            TaskStatusView::Processing => StatusKind::Processing,
            TaskStatusView::Completed => StatusKind::Completed,
            TaskStatusView::Failed(_) => StatusKind::Failed,
            TaskStatusView::Retrying => StatusKind::Retrying,
            TaskStatusView::TimedOut => StatusKind::TimedOut,
        }
    }

    /// Two statuses are of one kind when they are the same variant, whatever
    /// message a failure carries.
    pub open spec fn same_kind(self, other: TaskStatusView) -> bool {
        self.kind() == other.kind()
    }

    /// The printed form: the variant's name, and for a failure the message in
    /// quoted form between brackets.
    pub open spec fn text(self) -> Seq<char> {
        match self {
            TaskStatusView::Pending => "Pending"@,
            TaskStatusView::Processing => "Processing"@,
            TaskStatusView::Completed => "Completed"@,
            TaskStatusView::Failed(m) => "Failed("@ + crate::text::debug_text(m) + ")"@,
            TaskStatusView::Retrying => "Retrying"@,
            TaskStatusView::TimedOut => "TimedOut"@,
        }
    }

    /// The status that a variant name stands for; a failure read from its
    /// name alone has an empty message.
    pub open spec fn parse(s: Seq<char>) -> Option<TaskStatusView> {
        if s == "Pending"@ {
            Some(TaskStatusView::Pending)
        } else if s == "Processing"@ {
            Some(TaskStatusView::Processing)
        } else if s == "Completed"@ {
            Some(TaskStatusView::Completed)
        } else if s == "Failed"@ {
            Some(TaskStatusView::Failed(Seq::empty()))
        } else if s == "Retrying"@ {
            Some(TaskStatusView::Retrying)
        } else if s == "TimedOut"@ {
            Some(TaskStatusView::TimedOut)
        } else {
            None
        }
    }

    /// What a status can come to over any number of steps: a terminal
    /// status stays as it is, every other status can come to any status.
    pub open spec fn can_reach(self, later: TaskStatusView) -> bool {
        self == later || !self.is_terminal()
    }

    /// The state machine's edges: a pending task is claimed; a claimed task
    /// completes, fails, times out or is marked for a retry; a task marked for
    /// a retry is queued again.
    pub open spec fn may_become(self, next: TaskStatusView) -> bool {
        match self {
            TaskStatusView::Pending => next is Processing,
            TaskStatusView::Processing => next is Completed || next is Failed || next is Retrying
                || next is TimedOut,
            TaskStatusView::Retrying => next is Pending,
            _ => false,
        }
    }
}

impl DeepView for TaskStatus {
    type V = TaskStatusView;

    open spec fn deep_view(&self) -> TaskStatusView {
        match self {
            TaskStatus::Pending => TaskStatusView::Pending,
            TaskStatus::Processing => TaskStatusView::Processing,
            TaskStatus::Completed => TaskStatusView::Completed,
            TaskStatus::Failed(m) => TaskStatusView::Failed(m@),
            TaskStatus::Retrying => TaskStatusView::Retrying,
            TaskStatus::TimedOut => TaskStatusView::TimedOut,
        }
    }
}

impl View for TaskStatus {
    type V = TaskStatusView;

    open spec fn view(&self) -> TaskStatusView {
        self.deep_view()
    }
}

impl Clone for TaskStatus {
    fn clone(&self) -> (r: Self)
        ensures
            r@ == self@,
    {
        match self {
            TaskStatus::Pending => TaskStatus::Pending,
            TaskStatus::Processing => TaskStatus::Processing,
            TaskStatus::Completed => TaskStatus::Completed,
            TaskStatus::Failed(m) => TaskStatus::Failed(m.clone()),
            TaskStatus::Retrying => TaskStatus::Retrying,
            TaskStatus::TimedOut => TaskStatus::TimedOut,
        }
    }
}

impl TaskStatus {
    /// Reads a status from its variant name.
    pub fn try_from(status: String) -> (r: Result<TaskStatus, String>)
        ensures
            match TaskStatusView::parse(status@) {
                Some(v) => r matches Ok(s) && s@ == v,
                None => r matches Err(m) && m@ == "Invalid task status: "@ + status@,
            },
    {
        let s = status.as_str();
        if str_eq(s, "Pending") {
            Ok(TaskStatus::Pending)
        } else if str_eq(s, "Processing") {
            Ok(TaskStatus::Processing)
        } else if str_eq(s, "Completed") {
            Ok(TaskStatus::Completed)
        } else if str_eq(s, "Failed") {
            Ok(TaskStatus::Failed(String::new()))
        } else if str_eq(s, "Retrying") {
            Ok(TaskStatus::Retrying)
        } else if str_eq(s, "TimedOut") {
            Ok(TaskStatus::TimedOut)
        } else {
            Err(join("Invalid task status: ", s))
        }
    }

    /// Prints the status.
    pub fn to_string(&self) -> (r: String)
        ensures
            r@ == self@.text(),
    {
        match self {
            TaskStatus::Pending => String::from_str("Pending"),
            TaskStatus::Processing => String::from_str("Processing"),
            TaskStatus::Completed => String::from_str("Completed"),
            TaskStatus::Failed(m) => {
                let quoted = debug_quoted(m.as_str());
                let mut out = join("Failed(", quoted.as_str());
                out.append(")");
                out
            },
            TaskStatus::Retrying => String::from_str("Retrying"),
            TaskStatus::TimedOut => String::from_str("TimedOut"),
        }
    }

    /// Whether the status ends the task's life.
    pub fn is_terminal(&self) -> (r: bool)
        ensures
            r == self@.is_terminal(),
    {
        match self {
            TaskStatus::Completed => true,
            TaskStatus::Failed(_) => true,
            TaskStatus::TimedOut => true,
            _ => false,
        }
    }

    /// Whether the status is Processing.
    pub fn is_processing(&self) -> (r: bool)
        ensures
            r == (self@ is Processing),
    {
        match self {
            TaskStatus::Processing => true,
            _ => false,
        }
    }

    /// Whether the status is Retrying.
    pub fn is_retrying(&self) -> (r: bool)
        ensures
            r == (self@ is Retrying),
    {
        match self {
            TaskStatus::Retrying => true,
            _ => false,
        }
    }

    /// Whether the status is Pending.
    pub fn is_pending(&self) -> (r: bool)
        ensures
            r == (self@ is Pending),
    {
        match self {
            TaskStatus::Pending => true,
            _ => false,
        }
    }

    /// The variant of the status.
    pub fn kind(&self) -> (r: StatusKind)
        ensures
            r == self@.kind(),
    {
        match self {
            TaskStatus::Pending => StatusKind::Pending,
            TaskStatus::Processing => StatusKind::Processing,
            TaskStatus::Completed => StatusKind::Completed,
            TaskStatus::Failed(_) => StatusKind::Failed,
            TaskStatus::Retrying => StatusKind::Retrying,
            TaskStatus::TimedOut => StatusKind::TimedOut,
        }
    }

    /// Whether both are the same variant.
    pub fn same_kind(&self, other: &TaskStatus) -> (r: bool)
        ensures
            r == self@.same_kind(other@),
    {
        self.kind() == other.kind()
    }
}

/// A stretch of recognised speech. Times are in the engine's ticks.
#[derive(Debug, PartialEq, Eq)]
pub struct TranscribeSegment {
    pub text: String,
    pub speaker_id: Option<usize>,
    pub start_time: i64,
    pub end_time: i64,
}

/// The mathematical view of a `TranscribeSegment`: texts are sequences of characters,
/// vectors are sequences.
pub struct TranscribeSegmentView {
    pub text: Seq<char>,
    pub speaker_id: Option<usize>,
    pub start_time: i64,
    pub end_time: i64,
}

impl DeepView for TranscribeSegment {
    type V = TranscribeSegmentView;

    open spec fn deep_view(&self) -> TranscribeSegmentView {
        TranscribeSegmentView {
            text: self.text@,
            speaker_id: self.speaker_id,
            start_time: self.start_time,
            end_time: self.end_time,
        }
    }
}

impl View for TranscribeSegment {
    type V = TranscribeSegmentView;

    open spec fn view(&self) -> TranscribeSegmentView {
        self.deep_view()
    }
}

impl Clone for TranscribeSegment {
    fn clone(&self) -> (r: Self)
        ensures
            r@ == self@,
    {
        TranscribeSegment {
            text: self.text.clone(),
            speaker_id: self.speaker_id,
            start_time: self.start_time,
            end_time: self.end_time,
        }
    }
}

/// The outcome of a transcription: the full text and its segments in order.
#[derive(Debug, PartialEq, Eq)]
pub struct TranscribeResult {
    pub text: String,
    pub segments: Vec<TranscribeSegment>,
}

/// The mathematical view of a `TranscribeResult`: texts are sequences of characters,
/// vectors are sequences.
pub struct TranscribeResultView {
    pub text: Seq<char>,
    pub segments: Seq<TranscribeSegmentView>,
}

impl DeepView for TranscribeResult {
    type V = TranscribeResultView;

    open spec fn deep_view(&self) -> TranscribeResultView {
        TranscribeResultView { text: self.text@, segments: self.segments.deep_view() }
    }
}

impl View for TranscribeResult {
    type V = TranscribeResultView;

    open spec fn view(&self) -> TranscribeResultView {
        self.deep_view()
    }
}

impl Clone for TranscribeResult {
    fn clone(&self) -> (r: Self)
        ensures
            r@ == self@,
    {
        let mut segments: Vec<TranscribeSegment> = Vec::new();
        let mut i: usize = 0;
        while i < self.segments.len()
            invariant
                i <= self.segments.len(),
                segments.len() == i,
                forall|j: int| 0 <= j < i ==> segments[j]@ == self.segments[j]@,
            decreases self.segments.len() - i,
        {
            segments.push(self.segments[i].clone());
            i = i + 1;
        }
        assert(segments.deep_view() =~= self.segments.deep_view());
        TranscribeResult { text: self.text.clone(), segments }
    }
}

/// The outcome of a voiceprint recognition. Nothing yet.
#[derive(Debug, Clone, Copy, PartialEq, Eq, Structural)]
pub struct VoiceprintResult {}

/// The outcome of a noise reduction. Nothing yet.
#[derive(Debug, Clone, Copy, PartialEq, Eq, Structural)]
pub struct NoiseReductionResult {}

/// What a finished task produced, tagged by kind.
#[derive(Debug, PartialEq, Eq)]
pub enum TaskResult {
    Transcribe(TranscribeResult),
    VoiceprintRecognition(VoiceprintResult),
    NoiseReduction(NoiseReductionResult),
}

/// The mathematical view of a `TaskResult`: texts are sequences of characters,
/// vectors are sequences.
pub enum TaskResultView {
    Transcribe(TranscribeResultView),
    VoiceprintRecognition,
    NoiseReduction,
}

impl TaskResultView {
    /// A short printed form: the kind, and for a transcription its text in
    /// quoted form between brackets.
    pub open spec fn text(self) -> Seq<char> {
        match self {
            TaskResultView::Transcribe(t) => "Transcribe("@ + crate::text::debug_text(t.text)
                + ")"@,
            TaskResultView::VoiceprintRecognition => "VoiceprintRecognition"@,
            TaskResultView::NoiseReduction => "NoiseReduction"@,
        }
    }
}

impl TaskResult {
    /// Prints the short form of the result.
    pub fn to_string(&self) -> (r: String)
        ensures
            r@ == self@.text(),
    {
        match self {
            TaskResult::Transcribe(t) => {
                let quoted = debug_quoted(t.text.as_str());
                let mut out = join("Transcribe(", quoted.as_str());
                out.append(")");
                out
            },
            TaskResult::VoiceprintRecognition(_) => String::from_str("VoiceprintRecognition"),
            TaskResult::NoiseReduction(_) => String::from_str("NoiseReduction"),
        }
    }
}

impl DeepView for TaskResult {
    type V = TaskResultView;

    open spec fn deep_view(&self) -> TaskResultView {
        match self {
            TaskResult::Transcribe(r) => TaskResultView::Transcribe(r@),
            TaskResult::VoiceprintRecognition(_) => TaskResultView::VoiceprintRecognition,
            TaskResult::NoiseReduction(_) => TaskResultView::NoiseReduction,
        }
    }
}

impl View for TaskResult {
    type V = TaskResultView;

    open spec fn view(&self) -> TaskResultView {
        self.deep_view()
    }
}

impl Clone for TaskResult {
    fn clone(&self) -> (r: Self)
        ensures
            r@ == self@,
    {
        match self {
            TaskResult::Transcribe(t) => TaskResult::Transcribe(t.clone()),
            TaskResult::VoiceprintRecognition(_) => TaskResult::VoiceprintRecognition(
                VoiceprintResult {  },
            ),
            TaskResult::NoiseReduction(_) => TaskResult::NoiseReduction(NoiseReductionResult {  }),
        }
    }
}

/// Copies an optional result.
pub fn copy_result(r: &Option<TaskResult>) -> (out: Option<TaskResult>)
    ensures
        out.deep_view() == r.deep_view(),
{
    match r {
        Some(t) => Some(t.clone()),
        None => None,
    }
}

/// The unit of durable work. Times are milliseconds since the Unix epoch.
#[derive(Debug, PartialEq, Eq)]
pub struct Task {
    pub id: String,
    pub status: TaskStatus,
    pub config: TaskConfig,
    pub created_at: i64,
    pub updated_at: i64,
    pub started_at: Option<i64>,
    pub completed_at: Option<i64>,
    pub result: Option<TaskResult>,
    pub error: Option<String>,
}

/// The mathematical view of a `Task`: texts are sequences of characters,
/// vectors are sequences.
pub struct TaskView {
    pub id: Seq<char>,
    pub status: TaskStatusView,
    pub config: TaskConfigView,
    pub created_at: i64,
    pub updated_at: i64,
    pub started_at: Option<i64>,
    pub completed_at: Option<i64>,
    pub result: Option<TaskResultView>,
    pub error: Option<Seq<char>>,
}

impl TaskView {
    /// What holds of the times and the retries of every task: a task being
    /// processed has a start time, a task in a terminal state has a completion
    /// time, and the retries made do not exceed the retries allowed.
    pub open spec fn timed(self) -> bool {
        &&& self.status is Processing ==> self.started_at is Some
        &&& self.status.is_terminal() ==> self.completed_at is Some
        &&& self.config.retry_count <= self.config.max_retries
    }

    /// The error that goes with a status: the message of a failure, and none
    /// with any other status.
    pub open spec fn error_of(status: TaskStatusView) -> Option<Seq<char>> {
        match status {
            TaskStatusView::Failed(m) => Some(m),
            _ => None,
        }
    }

    /// What holds of every task however it got where it is: what `timed`
    /// says; a result is there exactly when the task is completed; and an
    /// error is there exactly when the task has failed, and is the failure's
    /// message.
    pub open spec fn valid(self) -> bool {
        &&& self.timed()
        &&& self.result is Some <==> self.status is Completed
        &&& self.error == Self::error_of(self.status)
    }

    /// The times of a task are in order when nothing it records lies after
    /// its last update.
    pub open spec fn time_ordered(self) -> bool {
        &&& self.created_at <= self.updated_at
        &&& self.started_at matches Some(s) ==> s <= self.updated_at
        &&& self.completed_at matches Some(c) ==> c <= self.updated_at
    }

    /// The run of a task is in order when it has a start and an end, the
    /// start is not after the end, and the end is not after the last update.
    pub open spec fn run_in_order(self) -> bool {
        &&& self.started_at matches Some(s) && self.completed_at matches Some(c) && s <= c && c
            <= self.updated_at
    }

    /// The instant at which a running task is overdue: its start plus its
    /// timeout in seconds. `None` for a task that has no start or no timeout.
    pub open spec fn deadline(self) -> Option<int> {
        match (self.started_at, self.config.timeout) {
            (Some(s), Some(t)) => Some(s + t * 1000),
            _ => None,
        }
    }

    /// A task has timed out at `now` when it is being processed and its
    /// deadline lies before `now`.
    pub open spec fn timed_out_at(self, now: int) -> bool {
        &&& self.status is Processing
        &&& self.deadline() matches Some(d) && d < now
    }

    /// The task after its status was set to `status` at the instant `now`:
    /// the update time is `now`; entering Processing sets a start time that
    /// was unset; entering a terminal state sets a completion time that was
    /// unset; the error is the one that goes with the status; a result stays
    /// only with a completed task.
    pub open spec fn with_status(self, status: TaskStatusView, now: i64) -> TaskView {
        TaskView {
            status: status,
            updated_at: now,
            started_at: if status is Processing && self.started_at is None {
                Some(now)
            } else {
                self.started_at
            },
            completed_at: if status.is_terminal() && self.completed_at is None {
                Some(now)
            } else {
                self.completed_at
            },
            error: Self::error_of(status),
            result: if status is Completed {
                self.result
            } else {
                None
            },
            ..self
        }
    }
}

/// Law of the state machine: what one edge leads to can be reached, and
/// what can be reached from what can be reached can be reached; a terminal
/// status is never left.
pub proof fn lemma_can_reach(a: TaskStatusView, b: TaskStatusView, c: TaskStatusView)
    ensures
        a.can_reach(a),
        a.may_become(b) ==> a.can_reach(b),
        a.can_reach(b) && b.can_reach(c) ==> a.can_reach(c),
        a.is_terminal() ==> !a.may_become(b),
        a.is_terminal() && a.can_reach(b) ==> b == a,
{
}

/// Law of the status names: a status that carries no message is read back
/// from its printed form, and a failure is read back from the bare name
/// "Failed" with an empty message.
pub proof fn lemma_status_names(status: TaskStatusView)
    ensures
        !(status is Failed) ==> TaskStatusView::parse(status.text()) == Some(status),
        TaskStatusView::parse("Failed"@) == Some(TaskStatusView::Failed(Seq::empty())),
{
    reveal_strlit("Pending");
    reveal_strlit("Processing");
    reveal_strlit("Completed");
    reveal_strlit("Failed");
    reveal_strlit("Retrying");
    reveal_strlit("TimedOut");
    assert("Pending"@.len() == 7);
    assert("Processing"@.len() == 10);
    assert("Completed"@.len() == 9);
    assert("Failed"@.len() == 6);
    assert("Retrying"@.len() == 8);
    assert("TimedOut"@.len() == 8);
    assert("Retrying"@[0] == 'R' && "TimedOut"@[0] == 'T');
}

/// A change of status: the new status and the instant of the change.
pub struct StatusChange {
    pub status: TaskStatusView,
    pub at: i64,
}

/// The task after the changes of status `changes`, made in turn.
pub open spec fn replayed(task: TaskView, changes: Seq<StatusChange>) -> TaskView
    decreases changes.len(),
{
    if changes.len() == 0 {
        task
    } else {
        replayed(task, changes.drop_last()).with_status(changes.last().status, changes.last().at)
    }
}

/// No change is made at an earlier instant than the one before it, nor than
/// the task's last update.
pub open spec fn clock_runs_forward(task: TaskView, changes: Seq<StatusChange>) -> bool {
    forall|i: int|
        0 <= i < changes.len() ==> (#[trigger] changes[i]).at >= (if i == 0 {
            task.updated_at
        } else {
            changes[i - 1].at
        })
}

/// Law of the task invariants: whatever changes of status are made, a task
/// being processed has a start time, a task in a terminal state has a
/// completion time, and the retries made stay within the retries allowed;
/// id, creation time and configuration stay as they are. A change of status
/// brings the error that goes with the status; so a valid task stays valid
/// unless a change marks it completed without a result.
pub proof fn lemma_changes_keep_valid(task: TaskView, changes: Seq<StatusChange>)
    requires
        task.timed(),
    ensures
        replayed(task, changes).timed(),
        replayed(task, changes).config == task.config,
        replayed(task, changes).id == task.id,
        replayed(task, changes).created_at == task.created_at,
        (task.valid() && forall|i: int|
            0 <= i < changes.len() ==> !((#[trigger] changes[i]).status is Completed))
            ==> replayed(task, changes).valid(),
    decreases changes.len(),
{
    if changes.len() > 0 {
        let rest = changes.drop_last();
        lemma_changes_keep_valid(task, rest);
        if task.valid() && forall|i: int|
            0 <= i < changes.len() ==> !((#[trigger] changes[i]).status is Completed) {
            assert forall|i: int| 0 <= i < rest.len() implies !((#[trigger] rest[i]).status
                is Completed) by {
                assert(rest[i] == changes[i]);
            }
            assert(!(changes[changes.len() - 1].status is Completed));
        }
    }
}

/// Law of the start time: once a task has been processing, it has a start
/// time, whatever changes of status follow; the start time is set once, at
/// the first change to Processing, and never altered.
pub proof fn lemma_start_is_set_once(task: TaskView, changes: Seq<StatusChange>, i: int)
    requires
        0 <= i < changes.len(),
        changes[i].status is Processing,
    ensures
        replayed(task, changes).started_at is Some,
        replayed(task, changes).started_at == replayed(task, changes.subrange(0, i + 1)).started_at,
        replayed(task, changes.subrange(0, i)).started_at is None ==> replayed(
            task,
            changes,
        ).started_at == Some(changes[i].at),
        task.started_at is Some ==> replayed(task, changes).started_at == task.started_at,
    decreases changes.len(),
{
    let rest = changes.drop_last();
    lemma_started_stays(task, changes);
    if i == changes.len() - 1 {
        assert(changes.subrange(0, i + 1) =~= changes);
        assert(changes.subrange(0, i) =~= rest);
    } else {
        lemma_start_is_set_once(task, rest, i);
        assert(rest.subrange(0, i + 1) =~= changes.subrange(0, i + 1));
        assert(rest.subrange(0, i) =~= changes.subrange(0, i));
    }
}

/// A start time of a task outlasts every change of status.
pub proof fn lemma_started_stays(task: TaskView, changes: Seq<StatusChange>)
    ensures
        task.started_at is Some ==> replayed(task, changes).started_at == task.started_at,
        task.completed_at is Some ==> replayed(task, changes).completed_at == task.completed_at,
    decreases changes.len(),
{
    if changes.len() > 0 {
        lemma_started_stays(task, changes.drop_last());
    }
}

/// Law of the order of times: while the clock does not run backwards, the
/// start time and the completion time of a task never lie after its last
/// update, whatever changes of status are made.
pub proof fn lemma_times_stay_in_order(task: TaskView, changes: Seq<StatusChange>)
    requires
        task.time_ordered(),
        clock_runs_forward(task, changes),
    ensures
        replayed(task, changes).time_ordered(),
        replayed(task, changes).updated_at >= task.updated_at,
        changes.len() > 0 ==> replayed(task, changes).updated_at == changes.last().at,
    decreases changes.len(),
{
    if changes.len() > 0 {
        let rest = changes.drop_last();
        assert forall|i: int| 0 <= i < rest.len() implies (#[trigger] rest[i]).at >= (if i == 0 {
            task.updated_at
        } else {
            rest[i - 1].at
        }) by {
            assert(rest[i] == changes[i]);
            if i > 0 {
                assert(rest[i - 1] == changes[i - 1]);
            }
        }
        lemma_times_stay_in_order(task, rest);
        let last = changes[changes.len() - 1];
        if rest.len() > 0 {
            assert(rest.last() == changes[changes.len() - 2]);
        }
    }
}

impl DeepView for Task {
    type V = TaskView;

    open spec fn deep_view(&self) -> TaskView {
        TaskView {
            id: self.id@,
            status: self.status@,
            config: self.config@,
            created_at: self.created_at,
            updated_at: self.updated_at,
            started_at: self.started_at,
            completed_at: self.completed_at,
            result: self.result.deep_view(),
            error: self.error.deep_view(),
        }
    }
}

impl View for Task {
    type V = TaskView;

    open spec fn view(&self) -> TaskView {
        self.deep_view()
    }
}

impl Task {
    /// Sets the status at the instant `now`, with the times, the error and
    /// the result that follow from it.
    pub fn set_status(&mut self, status: TaskStatus, now: i64)
        ensures
            final(self)@ == old(self)@.with_status(status@, now),
    {
        if status.is_processing() && self.started_at.is_none() {
            self.started_at = Some(now);
        }
        if status.is_terminal() && self.completed_at.is_none() {
            self.completed_at = Some(now);
        }
        match &status {
            TaskStatus::Failed(m) => {
                self.error = Some(m.clone());
            },
            _ => {
                self.error = None;
            },
        }
        match &status {
            TaskStatus::Completed => {},
            _ => {
                self.result = None;
            },
        }
        self.status = status;
        self.updated_at = now;
    }
}

impl Task {
    /// Whether the task satisfies the task invariants.
    pub fn is_valid(&self) -> (r: bool)
        ensures
            r == self@.valid(),
    {
        let timed = (!self.status.is_processing() || self.started_at.is_some()) && (
        !self.status.is_terminal() || self.completed_at.is_some()) && self.config.retry_count
            <= self.config.max_retries;
        let filled = match &self.status {
            TaskStatus::Completed => self.result.is_some(),
            _ => self.result.is_none(),
        };
        let told = match (&self.status, &self.error) {
            (TaskStatus::Failed(m), Some(e)) => *m == *e,
            (TaskStatus::Failed(_), None) => false,
            (_, Some(_)) => false,
            (_, None) => true,
        };
        timed && filled && told
    }
}

impl Clone for Task {
    fn clone(&self) -> (r: Self)
        ensures
            r@ == self@,
    {
        Task {
            id: self.id.clone(),
            status: self.status.clone(),
            config: self.config.clone(),
            created_at: self.created_at,
            updated_at: self.updated_at,
            started_at: self.started_at,
            completed_at: self.completed_at,
            result: copy_result(&self.result),
            error: copy_opt(&self.error),
        }
    }
}

} // verus!
