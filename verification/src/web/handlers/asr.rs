//! The transcription route.

use crate::auth::service::{records_after, verdict};
use crate::auth::{Auth, AuthError, Permission};
use crate::schedule::processors::TaskProcessor;
use crate::schedule::scheduler::task_manager::{checks, created};
use crate::storage::task::holds_id;
use crate::schedule::types::{
    CallbackType, CallbackTypeView, Task, TaskConfig, TaskConfigView, TaskParams, TaskParamsView,
    TaskPriority, TaskType, TranscribeParams, TranscribeParamsView,
};
use crate::schedule::TaskManager;
use crate::text::copy_opt;
use crate::utils::http::{download_path, download_target, HttpResponse};
use crate::views::result_view;
use vstd::prelude::*;
use vstd::string::*;

verus! {

/// The body of a transcription request.
#[derive(Debug, PartialEq, Eq)]
pub struct TranscribeRequest {
    pub audio_url: String,
    pub callback_url: String,
    pub language: Option<String>,
    pub speaker_diarization: bool,
    pub emotion_recognition: bool,
    pub filter_dirty_words: bool,
}

/// Retries a task submitted over the transcription route is allowed.
pub const TRANSCRIBE_MAX_RETRIES: u32 = 3;

/// A download that the route asks for: from where, and where to.
#[derive(Debug, PartialEq, Eq)]
pub struct DownloadOrder {
    pub url: String,
    pub dest_path: String,
}

/// The task configuration of a transcription request whose audio was
/// stored at `input_path`: normal priority, three retries, no timeout, and
/// the HTTP callback the request names.
pub open spec fn transcription_config(
    audio_path: Seq<char>,
    callback_url: Seq<char>,
    language: Option<Seq<char>>,
    speaker_diarization: bool,
    emotion_recognition: bool,
    filter_dirty_words: bool,
) -> TaskConfigView {
    TaskConfigView {
        task_type: TaskType::Transcribe,
        input_path: audio_path,
        callback_type: CallbackTypeView::Http { url: callback_url },
        params: TaskParamsView::Transcribe(
            TranscribeParamsView {
                language: language,
                speaker_diarization: speaker_diarization,
                emotion_recognition: emotion_recognition,
                filter_dirty_words: filter_dirty_words,
            },
        ),
        priority: TaskPriority::Normal,
        retry_count: 0,
        max_retries: TRANSCRIBE_MAX_RETRIES,
        timeout: None,
    }
}

/// The answer to a request that the credential service refused: status 401 and an
/// envelope that holds the error in its body.
pub fn authentication_failed(e: &AuthError) -> (r: (u16, HttpResponse<String>))
    ensures
        r.0 == 401,
        r.1.code == 401,
        r.1.message@ == "Authentication failed"@,
        r.1.body@ == e@.text(),
{
    (401, HttpResponse::new(401, String::from_str("Authentication failed"), e.to_string()))
}

/// First half of the route: the credential service checks the request's key for the
/// permission to transcribe. A request that passes is told where to store
/// the audio: in `audio_dir`, under the name that follows the last slash of
/// the URL. A request that is refused is answered with status 401.
pub fn transcribe_begin(
    auth: &mut Auth,
    authorization: Option<&str>,
    req: &TranscribeRequest,
    audio_dir: &str,
) -> (r: Result<DownloadOrder, (u16, HttpResponse<String>)>)
    requires
        old(auth).wf(),
    ensures
        final(auth).wf(),
        final(auth).keys() == old(auth).keys(),
        exists|now: i64, granted: bool|
            {
                let v = #[trigger] verdict(
                    old(auth).keys(),
                    old(auth).stats(),
                    authorization.deep_view(),
                    Permission::Transcribe,
                    now,
                    granted,
                );
                &&& r is Ok == v is Ok
                &&& final(auth).stats() == records_after(
                    old(auth).keys(),
                    old(auth).stats(),
                    authorization.deep_view(),
                    Permission::Transcribe,
                    now,
                    granted,
                )
                &&& r matches Err(answer) ==> v matches Err(e) && answer.0 == 401 && answer.1.code
                    == 401 && answer.1.message@ == "Authentication failed"@ && answer.1.body@
                    == e.text()
            },
        r matches Ok(order) ==> order.url@ == req.audio_url@ && order.dest_path@ == download_path(
            audio_dir@,
            req.audio_url@,
        ),
{
    match auth.verify_api_key(authorization, Permission::Transcribe) {
        Ok(()) => Ok(
            DownloadOrder {
                url: req.audio_url.clone(),
                dest_path: download_target(req.audio_url.as_str(), audio_dir),
            },
        ),
        Err(e) => Err(authentication_failed(&e)),
    }
}

/// The task configuration for a request whose audio is at `input_path`.
pub fn transcribe_config(req: &TranscribeRequest, input_path: String) -> (r: TaskConfig)
    ensures
        r@ == transcription_config(
            input_path@,
            req.callback_url@,
            req.language.deep_view(),
            req.speaker_diarization,
            req.emotion_recognition,
            req.filter_dirty_words,
        ),
{
    TaskConfig {
        task_type: TaskType::Transcribe,
        input_path,
        callback_type: CallbackType::Http { url: req.callback_url.clone() },
        params: TaskParams::Transcribe(
            TranscribeParams {
                language: copy_opt(&req.language),
                speaker_diarization: req.speaker_diarization,
                emotion_recognition: req.emotion_recognition,
                filter_dirty_words: req.filter_dirty_words,
            },
        ),
        priority: TaskPriority::Normal,
        retry_count: 0,
        max_retries: TRANSCRIBE_MAX_RETRIES,
        timeout: None,
    }
}

/// Second half of the route, given how the download went. A failed
/// download is answered with status 500, "Failed to download audio" and the
/// error of the download as the body, and no task is created. Else the task
/// is submitted: a refused submission is answered with status 500, "Failed
/// to create task" and the refusal as the body, an accepted one with status
/// 200, code 0, and the audio URL as the body.
pub fn transcribe_finish<P: TaskProcessor, F: Fn(&Task, &str) -> Result<(), String>>(
    task_manager: &mut TaskManager<P, F>,
    req: TranscribeRequest,
    downloaded: Result<String, String>,
) -> (r: (u16, HttpResponse<String>))
    requires
        old(task_manager).wf(),
    ensures
        final(task_manager).wf(),
        final(task_manager).same_registries(old(task_manager)),
        final(task_manager).in_flight() == old(task_manager).in_flight(),
        match downloaded {
            Err(e) => {
                &&& r.0 == 500 && r.1.code == 500
                &&& r.1.message@ == "Failed to download audio"@
                &&& r.1.body == e
                &&& final(task_manager).tasks() == old(task_manager).tasks()
            },
            Ok(path) => exists|
                config: TaskConfig,
                validation: Result<(), String>,
                token: Seq<char>,
                now: i64,
            |
                {
                    &&& config@ == transcription_config(
                        path@,
                        req.callback_url@,
                        req.language.deep_view(),
                        req.speaker_diarization,
                        req.emotion_recognition,
                        req.filter_dirty_words,
                    )
                    &&& old(task_manager).serves(TaskType::Transcribe) ==> checks(
                        old(task_manager).processor_of(TaskType::Transcribe),
                        config.params,
                        validation,
                    )
                    &&& match #[trigger] created(
                        old(task_manager).serves(TaskType::Transcribe),
                        holds_id(old(task_manager).tasks(), "task-"@ + token),
                        config@,
                        validation,
                        token,
                        now,
                    ) {
                        Ok(stored) => {
                            &&& r.0 == 200 && r.1.code == 0
                            &&& r.1.message@ == "Task added successfully"@
                            &&& r.1.body == req.audio_url
                            &&& final(task_manager).tasks() == old(task_manager).tasks().push(
                                stored,
                            )
                        },
                        Err(refusal) => {
                            &&& r.0 == 500 && r.1.code == 500
                            &&& r.1.message@ == "Failed to create task"@
                            &&& r.1.body@ == refusal
                            &&& final(task_manager).tasks() == old(task_manager).tasks()
                        },
                    }
                },
        },
{
    let dest = match downloaded {
        Ok(dest) => dest,
        Err(e) => {
            proof {
                task_manager.lemma_registries_same();
            }
            return (500, HttpResponse::new(500, String::from_str("Failed to download audio"), e));
        },
    };
    let task_config = transcribe_config(&req, dest);
    let ghost handed = task_config;
    let created_task = task_manager.create_task(task_config);
    let r = match created_task {
        Ok(_) => (
            200,
            HttpResponse::new(0, String::from_str("Task added successfully"), req.audio_url),
        ),
        Err(e) => (500, HttpResponse::new(500, String::from_str("Failed to create task"), e)),
    };
    proof {
        let served = old(task_manager).serves(TaskType::Transcribe);
        let (validation, token, now) = choose|
            validation: Result<(), String>,
            token: Seq<char>,
            now: i64,
        |
            {
                &&& served ==> checks(
                    old(task_manager).processor_of(TaskType::Transcribe),
                    handed.params,
                    validation,
                )
                &&& result_view(created_task) == #[trigger] created(
                    served,
                    holds_id(old(task_manager).tasks(), "task-"@ + token),
                    handed@,
                    validation,
                    token,
                    now,
                )
            };
        assert(result_view(created_task) == created(
            served,
            holds_id(old(task_manager).tasks(), "task-"@ + token),
            handed@,
            validation,
            token,
            now,
        ));
    }
    r
}

} // verus!
