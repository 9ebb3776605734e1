//! The processor for transcriptions.

use super::TaskProcessor;
use crate::asr::{AsrEngine, AsrParams, AsrParamsView};
use crate::schedule::types::{
    Task, TaskParams, TaskParamsView, TaskResult, TaskResultView, TaskType, TranscribeParams,
    TranscribeParamsView, TranscribeResult, TranscribeResultView, TranscribeSegment,
    TranscribeSegmentView,
};
use crate::text::{copy_opt, join, str_eq};
use vstd::prelude::*;
use vstd::string::*;

verus! {

/// The languages the processor transcribes: Chinese, English, Japanese.
pub open spec fn supported_language(code: Seq<char>) -> bool {
    code == "zh"@ || code == "en"@ || code == "ja"@
}

/// A transcription may leave the language open or name a supported one.
pub open spec fn valid_transcription(params: TranscribeParamsView) -> bool {
    params.language matches Some(code) ==> supported_language(code)
}

/// The parameter records the processor takes: those of a valid
/// transcription.
pub open spec fn accepted(params: TaskParamsView) -> bool {
    params matches TaskParamsView::Transcribe(p) && valid_transcription(p)
}

/// The options handed to the engine for a transcription.
pub open spec fn engine_params(params: TranscribeParamsView) -> AsrParamsView {
    AsrParamsView {
        language: params.language,
        single_segment: false,
        speaker_diarization: params.speaker_diarization,
        emotion_recognition: params.emotion_recognition,
        filter_dirty_words: params.filter_dirty_words,
    }
}

/// The engine's segment as the task result records it.
pub open spec fn recorded_segment(text: Seq<char>, speaker_id: usize, start: i64, end: i64) -> TranscribeSegmentView {
    TranscribeSegmentView {
        text: text,
        speaker_id: Some(speaker_id),
        start_time: start,
        end_time: end,
    }
}

/// What the task result records of what the engine reported: the full
/// text, and each segment with its speaker and its times.
pub open spec fn recorded(result: crate::asr::TranscribeResult) -> TranscribeResultView {
    TranscribeResultView {
        text: result.full_text@,
        segments: Seq::new(
            result.segments@.len(),
            |i: int|
                recorded_segment(
                    result.segments@[i].text@,
                    result.segments@[i].speaker_id,
                    result.segments@[i].start,
                    result.segments@[i].end,
                ),
        ),
    }
}

/// `r` is what a run answers when the engine answered `outcome`: the record
/// of what the engine reported, or the engine's error.
pub open spec fn answers(
    outcome: Result<crate::asr::TranscribeResult, String>,
    r: Result<TranscribeResult, String>,
) -> bool {
    match outcome {
        Ok(reported) => r matches Ok(t) && t@ == recorded(reported),
        Err(e) => r == Err::<TranscribeResult, String>(e),
    }
}

/// Transcribes audio with a speech recognition engine.
pub struct TranscribeProcessor<E> {
    pub asr: E,
}

impl<E: AsrEngine> TranscribeProcessor<E> {
    /// A processor on the engine `asr`.
    pub fn new(asr: E) -> (r: Self)
        ensures
            r.asr == asr,
    {
        TranscribeProcessor { asr }
    }

    /// The options for the engine that follow from the task's parameters.
    pub fn engine_options(params: &TranscribeParams) -> (r: AsrParams)
        ensures
            r@ == engine_params(params@),
    {
        let mut asr_params = AsrParams::new();
        asr_params.set_language(copy_opt(&params.language));
        asr_params.set_speaker_diarization(params.speaker_diarization);
        asr_params.set_emotion_recognition(params.emotion_recognition);
        asr_params.set_filter_dirty_words(params.filter_dirty_words);
        asr_params
    }

    /// The task result for what the engine reported: the full text, and
    /// each segment with its speaker and its times.
    pub fn record(result: crate::asr::TranscribeResult) -> (r: TranscribeResult)
        ensures
            r@ == recorded(result),
    {
        let mut segments: Vec<TranscribeSegment> = Vec::new();
        let mut i: usize = 0;
        while i < result.segments.len()
            invariant
                i <= result.segments.len(),
                segments.len() == i,
                forall|j: int|
                    0 <= j < i ==> segments[j]@ == recorded_segment(
                        result.segments@[j].text@,
                        result.segments@[j].speaker_id,
                        result.segments@[j].start,
                        result.segments@[j].end,
                    ),
            decreases result.segments.len() - i,
        {
            let s = &result.segments[i];
            segments.push(
                TranscribeSegment {
                    text: s.text.clone(),
                    speaker_id: Some(s.speaker_id),
                    start_time: s.start,
                    end_time: s.end,
                },
            );
            i = i + 1;
        }
        let out = TranscribeResult { text: result.full_text, segments };
        assert(out@.segments.len() == result.segments@.len());
        assert forall|i: int| 0 <= i < result.segments@.len() implies out@.segments[i]
            == recorded_segment(
            result.segments@[i].text@,
            result.segments@[i].speaker_id,
            result.segments@[i].start,
            result.segments@[i].end,
        ) by {
            assert(out@.segments[i] == out.segments[i]@);
        }
        assert(out@.segments =~= recorded(result).segments);
        out
    }

    /// Runs the engine on the task's input with the options that follow from
    /// `params`, and records what it reports.
    fn process_audio(&self, task: &Task, params: &TranscribeParams) -> (r: Result<
        TranscribeResult,
        String,
    >)
        ensures
            exists|outcome: Result<crate::asr::TranscribeResult, String>|
                #[trigger] answers(outcome, r),
    {
        let asr_params = Self::engine_options(params);
        let outcome = self.asr.transcribe(task.config.input_path.as_str(), asr_params);
        let r = Self::recorded_outcome(outcome);
        assert(answers(outcome, r));
        r
    }

    /// What a run answers, given what the engine answered: the record of
    /// what it reported, or its error.
    pub fn recorded_outcome(outcome: Result<crate::asr::TranscribeResult, String>) -> (r: Result<
        TranscribeResult,
        String,
    >)
        ensures
            answers(outcome, r),
    {
        match outcome {
            Ok(result) => Ok(Self::record(result)),
            Err(e) => Err(e),
        }
    }
}

impl<E: AsrEngine> TaskProcessor for TranscribeProcessor<E> {
    /// The processor serves transcriptions.
    fn task_type(&self) -> (r: TaskType)
        ensures
            r == TaskType::Transcribe,
    {
        TaskType::Transcribe
    }

    /// Transcribes the task's input. A task whose parameters are not those
    /// of a transcription fails with "Invalid task params"; else the engine
    /// decides, and a result is the record of what the engine reported.
    fn process(&self, task: &Task) -> (r: Result<TaskResult, String>)
        ensures
            !(task@.config.params is Transcribe) ==> (r matches Err(m) && m@
                == "Invalid task params"@),
            r matches Ok(v) ==> exists|reported: crate::asr::TranscribeResult|
                v@ == TaskResultView::Transcribe(#[trigger] recorded(reported)),
    {
        let params = match &task.config.params {
            TaskParams::Transcribe(p) => p,
            _ => {
                return Err(String::from_str("Invalid task params"));
            },
        };
        match self.process_audio(task, params) {
            Ok(result) => Ok(TaskResult::Transcribe(result)),
            Err(e) => Err(e),
        }
    }

    /// Accepts the parameters of a transcription that names no language or
    /// one of the supported ones. An unsupported language is refused with
    /// "Unsupported language: " and its code, another kind of parameters
    /// with "Invalid task params type".
    fn validate_params(&self, params: &TaskParams) -> (r: Result<(), String>)
        ensures
            r is Ok == accepted(params@),
            r matches Err(m) ==> m@ == (match params@ {
                TaskParamsView::Transcribe(p) => "Unsupported language: "@ + p.language.unwrap(),
                _ => "Invalid task params type"@,
            }),
    {
        match params {
            TaskParams::Transcribe(p) => {
                if let Some(lang) = &p.language {
                    let code = lang.as_str();
                    if !(str_eq(code, "zh") || str_eq(code, "en") || str_eq(code, "ja")) {
                        return Err(join("Unsupported language: ", code));
                    }
                }
                Ok(())
            },
            _ => Err(String::from_str("Invalid task params type")),
        }
    }

    /// Does nothing: a transcription that runs cannot be stopped.
    fn cancel(&self, task: &Task) -> (r: Result<(), String>)
        ensures
            r is Ok,
    {
        Ok(())
    }

    /// Does nothing in the library: removing the input file is left to the
    /// program around it.
    fn cleanup(&self, task: &Task) -> (r: Result<(), String>)
        ensures
            r is Ok,
    {
        Ok(())
    }
}

} // verus!
