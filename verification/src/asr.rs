//! What the library hands to a speech recognition engine and takes back.

use crate::text::copy_opt;
use vstd::prelude::*;
use vstd::string::*;

verus! {

/// Options of one recognition run.
#[derive(Debug, PartialEq, Eq)]
pub struct AsrParams {
    pub language: Option<String>,
    pub single_segment: bool,
    pub speaker_diarization: bool,
    pub emotion_recognition: bool,
    pub filter_dirty_words: bool,
}

/// The mathematical view of an `AsrParams`: texts are sequences of characters,
/// vectors are sequences.
pub struct AsrParamsView {
    pub language: Option<Seq<char>>,
    pub single_segment: bool,
    pub speaker_diarization: bool,
    pub emotion_recognition: bool,
    pub filter_dirty_words: bool,
}

impl DeepView for AsrParams {
    type V = AsrParamsView;

    open spec fn deep_view(&self) -> AsrParamsView {
        AsrParamsView {
            language: self.language.deep_view(),
            single_segment: self.single_segment,
            speaker_diarization: self.speaker_diarization,
            emotion_recognition: self.emotion_recognition,
            filter_dirty_words: self.filter_dirty_words,
        }
    }
}

impl View for AsrParams {
    type V = AsrParamsView;

    open spec fn view(&self) -> AsrParamsView {
        self.deep_view()
    }
}

impl Clone for AsrParams {
    fn clone(&self) -> (r: Self)
        ensures
            r@ == self@,
    {
        AsrParams {
            language: copy_opt(&self.language),
            single_segment: self.single_segment,
            speaker_diarization: self.speaker_diarization,
            emotion_recognition: self.emotion_recognition,
            filter_dirty_words: self.filter_dirty_words,
        }
    }
}

impl AsrParams {
    /// No language chosen, every option off.
    pub fn new() -> (r: Self)
        ensures
            r@ == (AsrParamsView {
                language: None,
                single_segment: false,
                speaker_diarization: false,
                emotion_recognition: false,
                filter_dirty_words: false,
            }),
    {
        AsrParams {
            language: None,
            single_segment: false,
            speaker_diarization: false,
            emotion_recognition: false,
            filter_dirty_words: false,
        }
    }

    /// Chooses the language, or leaves the choice to the engine.
    pub fn set_language(&mut self, language: Option<String>) -> (r: &Self)
        ensures
            final(self)@ == (AsrParamsView { language: language.deep_view(), ..old(self)@ }),
            r@ == final(self)@,
    {
        self.language = language;
        self
    }

    /// Switches single-segment recognition.
    pub fn set_single_segment(&mut self, single_segment: bool) -> (r: &Self)
        ensures
            final(self)@ == (AsrParamsView { single_segment: single_segment, ..old(self)@ }),
            r@ == final(self)@,
    {
        self.single_segment = single_segment;
        self
    }

    /// Switches speaker diarization.
    pub fn set_speaker_diarization(&mut self, speaker_diarization: bool) -> (r: &Self)
        ensures
            final(self)@ == (AsrParamsView { speaker_diarization: speaker_diarization, ..old(self)@ }),
            r@ == final(self)@,
    {
        self.speaker_diarization = speaker_diarization;
        self
    }

    /// Switches emotion recognition.
    pub fn set_emotion_recognition(&mut self, emotion_recognition: bool) -> (r: &Self)
        ensures
            final(self)@ == (AsrParamsView { emotion_recognition: emotion_recognition, ..old(self)@ }),
            r@ == final(self)@,
    {
        self.emotion_recognition = emotion_recognition;
        self
    }

    /// Switches the filter for dirty words.
    pub fn set_filter_dirty_words(&mut self, filter_dirty_words: bool) -> (r: &Self)
        ensures
            final(self)@ == (AsrParamsView { filter_dirty_words: filter_dirty_words, ..old(self)@ }),
            r@ == final(self)@,
    {
        self.filter_dirty_words = filter_dirty_words;
        self
    }
}

/// A stretch of speech as the engine reports it. Times are in the engine's
/// ticks.
#[derive(Debug, PartialEq, Eq)]
pub struct TranscribeSegment {
    pub text: String,
    pub speaker_id: usize,
    pub start: i64,
    pub end: i64,
}

/// What the engine reports for one input: its segments in order and the
/// whole text.
#[derive(Debug, PartialEq, Eq)]
pub struct TranscribeResult {
    pub segments: Vec<TranscribeSegment>,
    pub full_text: String,
}

/// A segment as a recogniser hands it out: its text, its times, and whether
/// the speaker changes behind it.
#[derive(Debug, PartialEq, Eq)]
pub struct RawSegment {
    pub text: String,
    pub start: i64,
    pub end: i64,
    pub speaker_turn_next: bool,
}

/// The mathematical view of a `RawSegment`: texts are sequences of characters,
/// vectors are sequences.
pub struct RawSegmentView {
    pub text: Seq<char>,
    pub start: i64,
    pub end: i64,
    pub speaker_turn_next: bool,
}

impl DeepView for RawSegment {
    type V = RawSegmentView;

    open spec fn deep_view(&self) -> RawSegmentView {
        RawSegmentView {
            text: self.text@,
            start: self.start,
            end: self.end,
            speaker_turn_next: self.speaker_turn_next,
        }
    }
}

/// Number of speaker changes among the first `n` segments.
pub open spec fn turns_in(raw: Seq<RawSegmentView>, n: int) -> nat
    decreases n,
{
    if n <= 0 {
        0
    } else {
        turns_in(raw, n - 1) + if raw[n - 1].speaker_turn_next {
            1nat
        } else {
            0nat
        }
    }
}

/// The texts of the first `n` segments, one behind the other.
pub open spec fn text_of(raw: Seq<RawSegmentView>, n: int) -> Seq<char>
    decreases n,
{
    if n <= 0 {
        Seq::empty()
    } else {
        text_of(raw, n - 1) + raw[n - 1].text
    }
}

/// The language a run recognises when the request names none.
pub const DEFAULT_LANGUAGE: &'static str = "zh";

impl AsrParams {
    /// The language of the run: the chosen one, or Chinese when none is
    /// chosen.
    pub fn language_or_default(&self) -> (r: String)
        ensures
            r@ == (match self@.language {
                Some(code) => code,
                None => DEFAULT_LANGUAGE@,
            }),
    {
        match &self.language {
            Some(code) => code.clone(),
            None => String::from_str(DEFAULT_LANGUAGE),
        }
    }
}

impl TranscribeResult {
    /// Puts the segments of a recogniser together: the first segment is
    /// spoken by speaker 0, and the speaker's number grows by one behind
    /// every segment that is followed by a change of speaker; the full text
    /// is the texts of the segments, one behind the other.
    pub fn assemble(raw: &Vec<RawSegment>) -> (r: TranscribeResult)
        ensures
            r.segments@.len() == raw@.len(),
            forall|i: int|
                0 <= i < raw@.len() ==> {
                    &&& (#[trigger] r.segments@[i]).text@ == raw@[i].text@
                    &&& r.segments@[i].start == raw@[i].start
                    &&& r.segments@[i].end == raw@[i].end
                    &&& r.segments@[i].speaker_id == turns_in(raw.deep_view(), i)
                },
            r.full_text@ == text_of(raw.deep_view(), raw@.len() as int),
    {
        let mut segments: Vec<TranscribeSegment> = Vec::new();
        let mut full_text = String::new();
        let mut current_speaker: usize = 0;
        let mut i: usize = 0;
        while i < raw.len()
            invariant
                i <= raw.len(),
                segments@.len() == i,
                current_speaker == turns_in(raw.deep_view(), i as int),
                current_speaker <= i,
                full_text@ == text_of(raw.deep_view(), i as int),
                forall|j: int|
                    0 <= j < i ==> {
                        &&& (#[trigger] segments@[j]).text@ == raw@[j].text@
                        &&& segments@[j].start == raw@[j].start
                        &&& segments@[j].end == raw@[j].end
                        &&& segments@[j].speaker_id == turns_in(raw.deep_view(), j)
                    },
            decreases raw.len() - i,
        {
            let seg = &raw[i];
            assert(raw.deep_view()[i as int] == seg.deep_view());
            segments.push(
                TranscribeSegment {
                    text: seg.text.clone(),
                    speaker_id: current_speaker,
                    start: seg.start,
                    end: seg.end,
                },
            );
            full_text.append(seg.text.as_str());
            if seg.speaker_turn_next {
                current_speaker = current_speaker + 1;
            }
            i = i + 1;
        }
        TranscribeResult { segments, full_text }
    }
}

/// A speech recognition engine. `transcribe` reads the audio at
/// `input_path` and recognises it; nothing is known of what it returns.
pub trait AsrEngine {
    fn transcribe(&self, input_path: &str, params: AsrParams) -> Result<TranscribeResult, String>;
}

} // verus!
