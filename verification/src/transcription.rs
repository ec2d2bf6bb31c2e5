//! From a recording to the words to insert.

use vstd::prelude::*;

use crate::clock::Duration;
use crate::credentials::has_api_key;
use crate::dictionary::{
    fitting,
    misspelled,
    ranking,
    rule_of,
    spelling,
    terms,
    DictionaryStore,
    EntryView,
    SPELLING_COUNT,
    VOCABULARY_SIZE,
};
use crate::gemini::{
    a_cleanup_asks_with_its_prompt,
    a_transcription_carries_its_words,
    an_interaction_carries_its_words,
    cleaning,
    cleanup,
    deep,
    generated_words,
    interaction,
    interaction_words,
    lists,
    other_words_make_another_request,
    outcome,
    transcribe,
    transcribe_interaction,
    transcription,
    ErrorView,
    Request,
    RequestView,
    TranscriptionError,
};
use crate::json::{base64, encodable, JsonView};
use crate::prompt::{
    cleanup_prompt,
    first,
    sanitized,
    sections,
    tone_category,
    tone_of,
    RULES,
};
use crate::replacement::{apply, enforced_all, longest_first, RuleView};
use crate::settings::{
    FormattingPolicy,
    GeminiConfig,
    Settings,
    SettingsStore,
    TranscriptionMode,
};
use crate::text::{
    chars_of,
    joined,
    occurs_in,
    opt_text,
    same_text,
    string_of,
    texts,
    trim,
    trimmed,
};
use crate::timeout::{deadline_for, overall_deadline};
use crate::validation::{bare_text, gated, strip_artifacts, validate, Verdict};

verus! {

/// What a transcription came to.
#[derive(Debug, PartialEq, Eq)]
pub struct TranscriptionResult {
    pub raw_transcript: String,
    pub cleaned_transcript: String,
    pub model_id: String,
}

pub struct ResultView {
    pub raw_transcript: Seq<char>,
    pub cleaned_transcript: Seq<char>,
    pub model_id: Seq<char>,
}

impl View for TranscriptionResult {
    type V = ResultView;

    open spec fn view(&self) -> ResultView {
        ResultView {
            raw_transcript: self.raw_transcript@,
            cleaned_transcript: self.cleaned_transcript@,
            model_id: self.model_id@,
        }
    }
}

/// Where the user was dictating, captured at hotkey-down.
#[derive(Debug, PartialEq, Eq)]
pub struct DictationContext {
    /// Process image name of the foreground window ("Code.exe").
    pub target_app_exe: Option<String>,
    pub target_app_name: Option<String>,
    /// Process id, so insertion can prove focus never moved.
    pub target_pid: Option<u32>,
}

pub struct ContextView {
    pub target_app_exe: Option<Seq<char>>,
    pub target_app_name: Option<Seq<char>>,
    pub target_pid: Option<u32>,
}

impl View for DictationContext {
    type V = ContextView;

    open spec fn view(&self) -> ContextView {
        ContextView {
            target_app_exe: opt_text(self.target_app_exe),
            target_app_name: opt_text(self.target_app_name),
            target_pid: self.target_pid,
        }
    }
}

impl Clone for DictationContext {
    fn clone(&self) -> (copy: Self)
        ensures
            copy@ == self@,
    {
        DictationContext {
            target_app_exe: self.target_app_exe.clone(),
            target_app_name: self.target_app_name.clone(),
            target_pid: self.target_pid,
        }
    }
}

impl Default for DictationContext {
    fn default() -> (context: Self)
        ensures
            context@ == (ContextView {
                target_app_exe: None,
                target_app_name: None,
                target_pid: None,
            }),
    {
        DictationContext { target_app_exe: None, target_app_name: None, target_pid: None }
    }
}

/// Cleanup budget in nanoseconds: a hard cap, so that falling back keeps the
/// pipeline fast.
pub const CLEANUP_DEADLINE: u128 = 1_500_000_000;

/// Total bytes of dictionary vocabulary allowed on the wire.
pub const VOCABULARY_BUDGET: usize = 2_048;

pub const AUDIO_MIME_TYPE: &'static str = "audio/wav";

/// The pause before a silent retry, in nanoseconds.
pub const RETRY_PAUSE: u128 = 500_000_000;

/// The shortest recording, in nanoseconds, whose empty transcript is worth a
/// second request.
pub const SPEECH_LENGTH: u128 = 600_000_000;

/// The vocabulary that has provably broken a request, if any. Keyed on the
/// vocabulary itself rather than a bare flag: editing the dictionary brings the
/// feature back.
#[derive(Debug)]
pub struct Suppression {
    pub blocked: Option<Vec<String>>,
}

impl View for Suppression {
    type V = Option<Seq<Seq<char>>>;

    open spec fn view(&self) -> Option<Seq<Seq<char>>> {
        match self.blocked {
            Some(list) => Some(texts(list@)),
            None => None,
        }
    }
}

fn same_lists(a: &Vec<String>, b: &Vec<String>) -> (same: bool)
    ensures
        same == (texts(a@) == texts(b@)),
{
    if a.len() != b.len() {
        assert(texts(a@).len() != texts(b@).len());
        return false;
    }
    let mut i: usize = 0;
    while i < a.len()
        invariant
            a@.len() == b@.len(),
            i <= a@.len(),
            forall|k: int| 0 <= k < i ==> #[trigger] texts(a@)[k] == texts(b@)[k],
        decreases a@.len() - i,
    {
        if !same_text(a[i].as_str(), b[i].as_str()) {
            assert(texts(a@)[i as int] != texts(b@)[i as int]);
            return false;
        }
        i += 1;
    }
    assert(texts(a@) =~= texts(b@));
    true
}

impl Default for Suppression {
    fn default() -> (none: Self)
        ensures
            none@ is None,
    {
        Suppression { blocked: None }
    }
}

impl Suppression {
    pub fn is_blocked(&self, vocabulary: &Vec<String>) -> (blocked: bool)
        ensures
            blocked == (self@ == Some(texts(vocabulary@))),
    {
        match &self.blocked {
            Some(list) => same_lists(list, vocabulary),
            None => false,
        }
    }

    pub fn block(&mut self, vocabulary: &Vec<String>)
        ensures
            final(self)@ == Some(texts(vocabulary@)),
    {
        self.blocked = Some(crate::text::copied(vocabulary));
    }
}

/// Which of the sends of one dictation this is.
#[derive(Debug, Clone, Copy, PartialEq, Eq, Structural)]
pub enum Attempt {
    First,
    /// The silent retry after a transient failure.
    Again,
    /// The one send more after an empty transcript of real audio.
    SecondChance,
}

/// How far a transcription has come.
#[derive(Debug, Clone, Copy, PartialEq, Eq, Structural)]
pub enum Stage {
    /// A request is out, with or without the vocabulary.
    Sent { attempt: Attempt, with_words: bool },
    Pausing,
    Over,
}

/// What a transcription does next.
#[derive(Debug, PartialEq, Eq)]
pub enum Next {
    Send { with_words: bool },
    /// Wait `RETRY_PAUSE`.
    Pause,
    /// Ask for this text cleaned up.
    Clean(String),
    /// This is the text.
    Finish(String),
    Fail(TranscriptionError),
}

pub enum NextView {
    Send { with_words: bool },
    Pause,
    Clean(Seq<char>),
    Finish(Seq<char>),
    Fail(ErrorView),
}

impl View for Next {
    type V = NextView;

    open spec fn view(&self) -> NextView {
        match self {
            Next::Send { with_words } => NextView::Send { with_words: *with_words },
            Next::Pause => NextView::Pause,
            Next::Clean(text) => NextView::Clean(text@),
            Next::Finish(text) => NextView::Finish(text@),
            Next::Fail(error) => NextView::Fail(error@),
        }
    }
}

/// What one dictation is transcribed under, read once: a toggle flipped on the
/// way must not change the rules.
pub struct Terms {
    /// Whether there is a vocabulary to send.
    pub has_words: bool,
    pub duration: Duration,
    pub cleanup_pass: bool,
}

/// A step: where it leads, what is done, and whether the vocabulary is now known
/// to break requests.
pub struct Step {
    pub stage: Stage,
    pub next: NextView,
    pub blames_words: bool,
}

/// A failure that a retry may clear.
pub open spec fn transient(error: ErrorView) -> bool {
    error is Network || error is Timeout
}

/// What to do with the text a request brought.
pub open spec fn with_text(terms: Terms, text: Seq<char>, second_chance: bool) -> (
    Stage,
    NextView,
) {
    let kept = trim(text);
    if kept.len() > 0 {
        (
            Stage::Over,
            if terms.cleanup_pass {
                NextView::Clean(kept)
            } else {
                NextView::Finish(kept)
            },
        )
    } else if !second_chance && terms.duration.nanos >= SPEECH_LENGTH {
        (
            Stage::Sent { attempt: Attempt::SecondChance, with_words: terms.has_words },
            NextView::Send { with_words: terms.has_words },
        )
    } else {
        (Stage::Over, NextView::Fail(ErrorView::EmptyTranscript))
    }
}

/// What a reply leads to.
pub open spec fn after_reply(
    terms: Terms,
    attempt: Attempt,
    with_words: bool,
    reply: Result<Seq<char>, ErrorView>,
) -> Step {
    let blames_words = terms.has_words && !with_words && reply is Ok;
    let (stage, next) = match reply {
        Err(ErrorView::BadRequest(_)) if with_words => (
            Stage::Sent { attempt, with_words: false },
            NextView::Send { with_words: false },
        ),
        Ok(text) => with_text(terms, text, attempt is SecondChance),
        Err(_) if attempt is SecondChance => with_text(terms, Seq::empty(), true),
        Err(error) => if attempt is First && transient(error) {
            (Stage::Pausing, NextView::Pause)
        } else {
            (Stage::Over, NextView::Fail(error))
        },
    };
    Step { stage, next, blames_words }
}

/// What follows the pause.
pub open spec fn after_pause(terms: Terms) -> (Stage, NextView) {
    (
        Stage::Sent { attempt: Attempt::Again, with_words: terms.has_words },
        NextView::Send { with_words: terms.has_words },
    )
}

/// The transcription of one dictation.
#[derive(Debug)]
pub struct Job {
    pub stage: Stage,
    pub vocabulary: Vec<String>,
    pub config: GeminiConfig,
    pub policy: FormattingPolicy,
    pub legacy_endpoint: bool,
    pub duration: Duration,
    pub deadline: Duration,
}

impl Job {
    pub open spec fn terms(self) -> Terms {
        Terms {
            has_words: self.vocabulary@.len() > 0,
            duration: self.duration,
            cleanup_pass: self.policy.cleanup_pass,
        }
    }

    /// The same dictation, at another stage.
    pub open spec fn same_but_stage(self, other: Job) -> bool {
        &&& self.vocabulary == other.vocabulary
        &&& self.config == other.config
        &&& self.policy == other.policy
        &&& self.legacy_endpoint == other.legacy_endpoint
        &&& self.duration == other.duration
        &&& self.deadline == other.deadline
    }
}

/// The vocabulary a request may carry.
pub open spec fn wire_vocabulary(entries: Seq<EntryView>) -> Seq<Seq<char>> {
    fitting(first(terms(ranking(entries)), VOCABULARY_SIZE as int), 0, VOCABULARY_BUDGET as int)
}

/// The rules that hold on every path.
pub open spec fn rules_of(entries: Seq<EntryView>) -> Seq<RuleView> {
    longest_first(misspelled(entries).map_values(|e: EntryView| rule_of(e)))
}

/// The id of what produced a text: the model, the mode, and the model that
/// cleaned it up if one did.
pub open spec fn pipeline_id(
    model: Seq<char>,
    mode: TranscriptionMode,
    cleanup_model: Option<Seq<char>>,
) -> Seq<char> {
    let id = model + "/"@ + mode.label();
    match cleanup_model {
        Some(cleanup_model) => id + "+"@ + cleanup_model,
        None => id,
    }
}

pub fn model_id(config: &GeminiConfig, policy: FormattingPolicy) -> (id: String)
    ensures
        id@ == pipeline_id(
            config.transcribe_model@,
            policy.mode_of(),
            if policy.cleanup_pass {
                Some(config.cleanup_model@)
            } else {
                None
            },
        ),
{
    let mut id = config.transcribe_model.clone();
    id.append("/");
    id.append(policy.mode().as_str());
    if policy.cleanup_pass {
        id.append("+");
        id.append(config.cleanup_model.as_str());
    }
    id
}

/// A recording that cannot be read: permanent for its row, so that the queue does
/// not spin on it.
pub fn unreadable_recording(detail: &str) -> (error: TranscriptionError)
    ensures
        error@ == ErrorView::BadRequest("unreadable recording: "@ + detail@),
{
    let mut words = "unreadable recording: ".to_owned();
    words.append(detail);
    TranscriptionError::BadRequest(words)
}

#[derive(Debug)]
pub struct GeminiTranscriptionService {
    pub suppression: Suppression,
}

impl GeminiTranscriptionService {
    pub fn new() -> (service: Self)
        ensures
            service.suppression@ is None,
    {
        GeminiTranscriptionService { suppression: Suppression::default() }
    }

    /// The vocabulary to send: none if just this one is known to break requests.
    pub fn vocabulary_if_enabled(&self, dictionary: &DictionaryStore) -> (list: Vec<String>)
        ensures
            texts(list@) == (if self.suppression@ == Some(wire_vocabulary(dictionary@)) {
                Seq::empty()
            } else {
                wire_vocabulary(dictionary@)
            }),
    {
        let vocabulary = dictionary.sanitized_vocabulary(VOCABULARY_BUDGET);
        if self.suppression.is_blocked(&vocabulary) {
            let none: Vec<String> = Vec::new();
            assert(texts(none@) =~= Seq::<Seq<char>>::empty());
            none
        } else {
            vocabulary
        }
    }

    /// Starts a transcription. Without a key it fails here rather than asking
    /// the server what it thinks of none.
    pub fn begin(
        &self,
        stored_key: &Option<String>,
        settings: &Settings,
        dictionary: &DictionaryStore,
        duration: Duration,
    ) -> (started: Result<Job, TranscriptionError>)
        ensures
            match started {
                Err(error) => error is Auth && !(*stored_key matches Some(key) && trim(key@).len()
                    > 0),
                Ok(job) => {
                    &&& (*stored_key matches Some(key) && trim(key@).len() > 0)
                    &&& texts(job.vocabulary@) == (if self.suppression@ == Some(
                        wire_vocabulary(dictionary@),
                    ) {
                        Seq::empty()
                    } else {
                        wire_vocabulary(dictionary@)
                    })
                    &&& job.stage == (Stage::Sent {
                        attempt: Attempt::First,
                        with_words: job.terms().has_words,
                    })
                    &&& settings@.configures(job.config)
                    &&& job.policy == settings@.policy()
                    &&& job.legacy_endpoint == settings@.legacy_transcribe_endpoint
                    &&& job.duration == duration
                    &&& job.deadline.nanos == deadline_for(duration)
                },
            },
    {
        if !has_api_key(stored_key) {
            return Err(TranscriptionError::Auth);
        }
        let vocabulary = self.vocabulary_if_enabled(dictionary);
        let with_words = vocabulary.len() > 0;
        Ok(
            Job {
                stage: Stage::Sent { attempt: Attempt::First, with_words },
                vocabulary,
                config: settings.gemini_config(),
                policy: settings.formatting_policy(),
                legacy_endpoint: settings.legacy_transcribe_endpoint,
                duration,
                deadline: overall_deadline(duration),
            },
        )
    }
}

/// The request of a job.
pub open spec fn job_request(
    legacy_endpoint: bool,
    audio: Seq<u8>,
    model: Seq<char>,
    mode: TranscriptionMode,
    vocabulary: Seq<Seq<char>>,
) -> RequestView {
    if legacy_endpoint {
        transcription(audio, AUDIO_MIME_TYPE@, model, vocabulary)
    } else {
        interaction(audio, AUDIO_MIME_TYPE@, model, mode, vocabulary)
    }
}

fn trimmed_text(text: &str) -> (kept: String)
    ensures
        kept@ == trim(text@),
{
    string_of(&trimmed(&chars_of(text)))
}

impl Job {
    /// The transport decision lives in one place: falling back cannot switch
    /// endpoints half way.
    pub fn request(&self, audio: &[u8], with_words: bool) -> (request: Request)
        requires
            encodable(audio@),
        ensures
            request@ == job_request(
                self.legacy_endpoint,
                audio@,
                self.config.transcribe_model@,
                self.policy.mode_of(),
                if with_words {
                    texts(self.vocabulary@)
                } else {
                    Seq::empty()
                },
            ),
    {
        let none: Vec<String> = Vec::new();
        assert(texts(none@) =~= Seq::<Seq<char>>::empty());
        let words = if with_words {
            &self.vocabulary
        } else {
            &none
        };
        if self.legacy_endpoint {
            transcribe(audio, AUDIO_MIME_TYPE, self.config.transcribe_model.as_str(), words)
        } else {
            transcribe_interaction(
                audio,
                AUDIO_MIME_TYPE,
                self.config.transcribe_model.as_str(),
                self.policy.mode(),
                words,
            )
        }
    }

    /// The pause is over: send again.
    pub fn paused(&mut self) -> (next: Next)
        requires
            old(self).stage is Pausing,
        ensures
            final(self).same_but_stage(*old(self)),
            (final(self).stage, next@) == after_pause(old(self).terms()),
    {
        let with_words = self.vocabulary.len() > 0;
        self.stage = Stage::Sent { attempt: Attempt::Again, with_words };
        Next::Send { with_words }
    }

    fn take_text(&mut self, text: &str, second_chance: bool) -> (next: Next)
        ensures
            final(self).same_but_stage(*old(self)),
            (final(self).stage, next@) == with_text(old(self).terms(), text@, second_chance),
    {
        let kept = trimmed_text(text);
        let n: usize = chars_of(kept.as_str()).len();
        if n > 0 {
            self.stage = Stage::Over;
            if self.policy.cleanup_pass {
                Next::Clean(kept)
            } else {
                Next::Finish(kept)
            }
        } else if !second_chance && self.duration.nanos >= SPEECH_LENGTH {
            let with_words = self.vocabulary.len() > 0;
            self.stage = Stage::Sent { attempt: Attempt::SecondChance, with_words };
            Next::Send { with_words }
        } else {
            self.stage = Stage::Over;
            Next::Fail(TranscriptionError::EmptyTranscript)
        }
    }

    /// A reply came. One strange dictionary entry must never be able to break a
    /// dictation: a request refused with the vocabulary is sent without it, and
    /// only once that succeeds is the vocabulary to blame.
    pub fn replied(&mut self, reply: Result<String, TranscriptionError>) -> (step: (Next, bool))
        requires
            old(self).stage is Sent,
        ensures
            final(self).same_but_stage(*old(self)),
            ({
                let due = after_reply(
                    old(self).terms(),
                    old(self).stage->attempt,
                    old(self).stage->with_words,
                    outcome(reply),
                );
                &&& final(self).stage == due.stage
                &&& step.0@ == due.next
                &&& step.1 == due.blames_words
            }),
    {
        let (attempt, with_words) = match self.stage {
            Stage::Sent { attempt, with_words } => (attempt, with_words),
            _ => (Attempt::First, false),
        };
        let second_chance = attempt == Attempt::SecondChance;
        match reply {
            Ok(text) => {
                let blames = self.vocabulary.len() > 0 && !with_words;
                let next = self.take_text(text.as_str(), second_chance);
                (next, blames)
            },
            Err(error) => {
                let refused = match &error {
                    TranscriptionError::BadRequest(_) => true,
                    _ => false,
                };
                if refused && with_words {
                    self.stage = Stage::Sent { attempt, with_words: false };
                    return (Next::Send { with_words: false }, false);
                }
                if second_chance {
                    proof {
                        reveal_strlit("");
                        assert(""@ =~= Seq::<char>::empty());
                    }
                    return (self.take_text("", true), false);
                }
                let passing = match &error {
                    TranscriptionError::Network(_) => true,
                    TranscriptionError::Timeout => true,
                    _ => false,
                };
                if passing && attempt == Attempt::First {
                    self.stage = Stage::Pausing;
                    (Next::Pause, false)
                } else {
                    self.stage = Stage::Over;
                    (Next::Fail(error), false)
                }
            },
        }
    }

    /// The result without a second model. The validation is not run: with
    /// nothing to compare against it would pass whatever came.
    pub fn finish(&self, dictionary: &DictionaryStore, raw: &str) -> (result: TranscriptionResult)
        requires
            !self.policy.cleanup_pass,
        ensures
            result@ == (ResultView {
                raw_transcript: raw@,
                cleaned_transcript: enforced_all(rules_of(dictionary@), raw@),
                model_id: pipeline_id(
                    self.config.transcribe_model@,
                    self.policy.mode_of(),
                    None,
                ),
            }),
    {
        TranscriptionResult {
            raw_transcript: raw.to_owned(),
            cleaned_transcript: apply(&dictionary.replacement_rules(), raw),
            model_id: model_id(&self.config, self.policy),
        }
    }

    /// The request for a text cleaned up, in the tone of the app it is for.
    pub fn cleanup_request(
        &self,
        dictionary: &DictionaryStore,
        context: &DictationContext,
        raw: &str,
    ) -> (request: Request)
        ensures
            request@ == cleaning(
                joined(
                    sections(
                        raw@,
                        tone_of(context@.target_app_exe),
                        wire_vocabulary(dictionary@),
                        first(
                            misspelled(ranking(dictionary@)).map_values(
                                |e: EntryView| spelling(e),
                            ),
                            SPELLING_COUNT as int,
                        ),
                    ),
                    "\n\n"@,
                ),
                self.config.cleanup_model@,
            ),
    {
        let tone = match &context.target_app_exe {
            Some(exe) => tone_category(Some(exe.as_str())),
            None => tone_category(None),
        };
        let prompt = cleanup_prompt(
            raw,
            tone,
            &dictionary.sanitized_vocabulary(VOCABULARY_BUDGET),
            &dictionary.spellings(),
        );
        cleanup(prompt.as_str(), self.config.cleanup_model.as_str())
    }

    /// The result with a second model. What it wrote is inserted if the
    /// validation lets it through; otherwise, and if it did not answer, what was
    /// said is. The verdict is there if the validation rejected.
    pub fn finish_cleaned(
        &self,
        dictionary: &DictionaryStore,
        raw: &str,
        reply: Result<String, TranscriptionError>,
    ) -> (done: (TranscriptionResult, Option<Verdict>))
        requires
            self.policy.cleanup_pass,
        ensures
            done.0@.raw_transcript == raw@,
            done.0@.model_id == pipeline_id(
                self.config.transcribe_model@,
                self.policy.mode_of(),
                Some(self.config.cleanup_model@),
            ),
            reply matches Ok(response) ==> exists|verdict: Verdict|
                #[trigger] gated(raw@, bare_text(response@), verdict) && (if verdict.accepted {
                    done.1 is None && done.0@.cleaned_transcript == enforced_all(
                        rules_of(dictionary@),
                        bare_text(response@),
                    )
                } else {
                    done.1 == Some(verdict) && done.0@.cleaned_transcript == enforced_all(
                        rules_of(dictionary@),
                        raw@,
                    )
                }),
            reply is Err ==> done.1 is None && done.0@.cleaned_transcript == enforced_all(
                rules_of(dictionary@),
                raw@,
            ),
    {
        let rules = dictionary.replacement_rules();
        let id = model_id(&self.config, self.policy);
        match reply {
            Ok(response) => {
                let cleaned = strip_artifacts(response.as_str());
                let verdict = validate(raw, cleaned.as_str());
                if verdict.accepted {
                    let result = TranscriptionResult {
                        raw_transcript: raw.to_owned(),
                        cleaned_transcript: apply(&rules, cleaned.as_str()),
                        model_id: id,
                    };
                    (result, None)
                } else {
                    let result = TranscriptionResult {
                        raw_transcript: raw.to_owned(),
                        cleaned_transcript: apply(&rules, raw),
                        model_id: id,
                    };
                    (result, Some(verdict))
                }
            },
            Err(_) => {
                let result = TranscriptionResult {
                    raw_transcript: raw.to_owned(),
                    cleaned_transcript: apply(&rules, raw),
                    model_id: id,
                };
                (result, None)
            },
        }
    }
}

/// Counts a rejection by the validation, and turns the tone pass off once there
/// have been too many in a day.
pub fn record_gate_trip(settings: &mut SettingsStore, now: i128) -> (announced: Option<
    &'static str,
>)
    ensures
        ({
            let tripped = old(settings).data@.tripped(now);
            &&& final(settings).data@ == tripped.degraded(tripped.gate_trips.len())
            &&& match announced {
                Some(key) => tripped.degrades(tripped.gate_trips.len()) && key@
                    == "smartFormattingAutoDegraded"@,
                None => !tripped.degrades(tripped.gate_trips.len()),
            }
        }),
{
    let trips = settings.record_gate_trip(now);
    settings.degrade_after(trips)
}

/// How many requests may still follow a stage.
pub open spec fn sends_left(stage: Stage) -> nat {
    match stage {
        Stage::Sent { attempt, with_words } => {
            let more: nat = match attempt {
                Attempt::First => 4,
                Attempt::Again => 2,
                Attempt::SecondChance => 0,
            };
            more + (if with_words {
                1nat
            } else {
                0nat
            })
        },
        Stage::Pausing => 4,
        Stage::Over => 0,
    }
}

/// Every reply brings a transcription closer to its end: after the first request
/// there are at most five more.
pub proof fn every_transcription_ends(
    terms: Terms,
    attempt: Attempt,
    with_words: bool,
    reply: Result<Seq<char>, ErrorView>,
)
    ensures
        ({
            let now = Stage::Sent { attempt, with_words };
            let step = after_reply(terms, attempt, with_words, reply);
            &&& step.next is Send ==> step.stage is Sent && sends_left(step.stage) < sends_left(now)
            &&& step.next is Pause <==> step.stage is Pausing
            &&& step.stage is Pausing ==> sends_left(
                Stage::Sent { attempt: Attempt::Again, with_words: terms.has_words },
            ) < sends_left(now)
            &&& step.stage is Over <==> (step.next is Clean || step.next is Finish
                || step.next is Fail)
        }),
{
}

/// The vocabulary is blamed only by a request that went out without it and came
/// back with a text: a bad key, which is refused the same way, blames nothing.
pub proof fn only_a_success_blames_the_words(
    terms: Terms,
    attempt: Attempt,
    with_words: bool,
    reply: Result<Seq<char>, ErrorView>,
)
    ensures
        after_reply(terms, attempt, with_words, reply).blames_words ==> reply is Ok && !with_words
            && terms.has_words,
{
}

/// A text that was said is never lost on the way: whatever request brings it, it
/// is the result, or goes on to be cleaned up.
pub proof fn a_transcript_is_never_lost(
    terms: Terms,
    attempt: Attempt,
    with_words: bool,
    text: Seq<char>,
)
    requires
        trim(text).len() > 0,
    ensures
        after_reply(terms, attempt, with_words, Ok(text)).next == (if terms.cleanup_pass {
            NextView::Clean(trim(text))
        } else {
            NextView::Finish(trim(text))
        }),
{
}

/// A refusal for good is passed on only once the words are out of the request.
pub proof fn words_never_break_a_dictation(
    terms: Terms,
    attempt: Attempt,
    with_words: bool,
    reply: Result<Seq<char>, ErrorView>,
)
    ensures
        after_reply(terms, attempt, with_words, reply).next matches NextView::Fail(error) && error
            is BadRequest ==> !with_words,
{
}

/// The words of the dictionary ride along with the audio: on either endpoint the
/// request made with them holds each of the job's terms, in order, and the request
/// made without them none.
pub proof fn the_words_ride_along(job: Job, audio: &[u8], with_words: bool, request: Request)
    requires
        call_ensures(Job::request, (&job, audio, with_words), request),
    ensures
        ({
            let held = if job.legacy_endpoint {
                generated_words(request@.body)
            } else {
                interaction_words(request@.body)
            };
            &&& with_words && job.vocabulary@.len() > 0 ==> lists(held, texts(job.vocabulary@))
            &&& !with_words || job.vocabulary@.len() == 0 ==> held is None
        }),
{
    let words = if with_words {
        texts(job.vocabulary@)
    } else {
        Seq::empty()
    };
    let model = job.config.transcribe_model@;
    a_transcription_carries_its_words(audio@, AUDIO_MIME_TYPE@, model, words);
    an_interaction_carries_its_words(
        audio@,
        AUDIO_MIME_TYPE@,
        model,
        job.policy.mode_of(),
        words,
    );
}

/// Two jobs that differ in their vocabulary alone send different requests with it
/// and the same request without.
pub proof fn other_words_are_another_request(
    a: Job,
    b: Job,
    audio: &[u8],
    with_words: bool,
    one: Request,
    other: Request,
)
    requires
        a.config == b.config,
        a.policy == b.policy,
        a.legacy_endpoint == b.legacy_endpoint,
        call_ensures(Job::request, (&a, audio, with_words), one),
        call_ensures(Job::request, (&b, audio, with_words), other),
    ensures
        with_words && texts(a.vocabulary@) != texts(b.vocabulary@) ==> one@.body != other@.body,
        !with_words ==> one@ == other@,
{
    if with_words && texts(a.vocabulary@) != texts(b.vocabulary@) {
        other_words_make_another_request(
            audio@,
            AUDIO_MIME_TYPE@,
            a.config.transcribe_model@,
            a.policy.mode_of(),
            texts(a.vocabulary@),
            texts(b.vocabulary@),
        );
    }
}

/// Every request of a job carries its recording and goes to its model, at the
/// endpoint that was chosen when it began: falling back changes neither.
pub proof fn a_request_carries_the_recording(
    job: Job,
    audio: &[u8],
    with_words: bool,
    request: Request,
)
    requires
        call_ensures(Job::request, (&job, audio, with_words), request),
    ensures
        request@.model == job.config.transcribe_model@,
        request@.model_is_in_path == job.legacy_endpoint,
        job.legacy_endpoint ==> request@.path == "v1beta/models/"@ + job.config.transcribe_model@
            + ":generateContent"@ && (request@.body.items_at("contents"@) matches Some(turns)
            && turns.len() == 1 && (turns[0].items_at("parts"@) matches Some(parts) && parts.len()
            == 1 && parts[0].within("inline_data"@, "data"@) == Some(
            JsonView::Text(base64(audio@)),
        ) && parts[0].within("inline_data"@, "mime_type"@) == Some(JsonView::Text("audio/wav"@)))),
        !job.legacy_endpoint ==> request@.path == "v1beta/interactions"@ && request@.body.text_at(
            "model"@,
        ) == Some(job.config.transcribe_model@) && (request@.body.items_at("input"@) matches Some(
            inputs,
        ) && inputs.len() == 1 && inputs[0].text_at("data"@) == Some(base64(audio@))
            && inputs[0].text_at("mime_type"@) == Some("audio/wav"@)),
{
    let words = if with_words {
        texts(job.vocabulary@)
    } else {
        Seq::empty()
    };
    let model = job.config.transcribe_model@;
    a_transcription_carries_its_words(audio@, AUDIO_MIME_TYPE@, model, words);
    an_interaction_carries_its_words(
        audio@,
        AUDIO_MIME_TYPE@,
        model,
        job.policy.mode_of(),
        words,
    );
}

/// The mode that the formatting asks for is named in the request where the
/// endpoint knows it.
pub proof fn smart_mode_is_asked_for(
    job: Job,
    audio: &[u8],
    with_words: bool,
    request: Request,
)
    requires
        call_ensures(Job::request, (&job, audio, with_words), request),
        !job.legacy_endpoint,
    ensures
        job.policy.mode_of() is Smart <==> deep(
            request@.body,
            "generation_config"@,
            "transcription_config"@,
            "mode"@,
        ) == Some(JsonView::Text("smart"@)),
{
    let words = if with_words {
        texts(job.vocabulary@)
    } else {
        Seq::empty()
    };
    an_interaction_carries_its_words(
        audio@,
        AUDIO_MIME_TYPE@,
        job.config.transcribe_model@,
        job.policy.mode_of(),
        words,
    );
}

/// A first request that the network or the clock fails is sent again after a
/// pause, once; the second such failure is passed on. Any other failure is passed
/// on at once.
pub proof fn a_passing_failure_is_retried_once(
    terms: Terms,
    attempt: Attempt,
    with_words: bool,
    error: ErrorView,
)
    requires
        !(attempt is SecondChance),
        !(error is BadRequest && with_words),
    ensures
        ({
            let step = after_reply(terms, attempt, with_words, Err(error));
            &&& attempt is First && (error is Network || error is Timeout) ==> step.next is Pause
                && step.stage is Pausing
            &&& !(attempt is First && (error is Network || error is Timeout)) ==> step.next
                == NextView::Fail(error) && step.stage is Over
            &&& !step.blames_words
        }),
{
}

/// A request that is refused with the words is sent again without them, on the
/// same attempt, and nothing is blamed yet; if that one succeeds, the words are.
pub proof fn a_refused_vocabulary_is_dropped(
    terms: Terms,
    attempt: Attempt,
    detail: Seq<char>,
    text: Seq<char>,
)
    requires
        terms.has_words,
    ensures
        ({
            let refused = after_reply(terms, attempt, true, Err(ErrorView::BadRequest(detail)));
            &&& refused.next == (NextView::Send { with_words: false })
            &&& refused.stage == (Stage::Sent { attempt, with_words: false })
            &&& !refused.blames_words
        }),
        after_reply(terms, attempt, false, Ok(text)).blames_words,
        !after_reply(terms, attempt, true, Ok(text)).blames_words,
{
}

/// An empty transcript of six tenths of a second or more is worth one more
/// request, with the words; of less, or the second time, it is reported as empty,
/// and so is whatever goes wrong with that request.
pub proof fn an_empty_transcript_gets_one_second_chance(
    terms: Terms,
    attempt: Attempt,
    with_words: bool,
    text: Seq<char>,
    error: ErrorView,
)
    requires
        trim(text).len() == 0,
    ensures
        ({
            let empty = after_reply(terms, attempt, with_words, Ok(text));
            &&& !(attempt is SecondChance) && terms.duration.nanos >= 600_000_000 ==> empty.next
                == (NextView::Send { with_words: terms.has_words }) && empty.stage == (
            Stage::Sent { attempt: Attempt::SecondChance, with_words: terms.has_words })
            &&& attempt is SecondChance || terms.duration.nanos < 600_000_000 ==> empty.next
                == NextView::Fail(ErrorView::EmptyTranscript) && empty.stage is Over
        }),
        !(error is BadRequest && with_words) ==> after_reply(
            terms,
            Attempt::SecondChance,
            with_words,
            Err(error),
        ).next == NextView::Fail(ErrorView::EmptyTranscript),
{
    assert(trim(Seq::<char>::empty()).len() == 0) by {
        crate::text::lemma_trim_is_part(Seq::<char>::empty());
    }
}

/// A transcription begins only with a key, with the vocabulary of the dictionary
/// unless just that one is known to break requests, and with the settings of the
/// moment.
pub proof fn a_transcription_begins_with_the_dictionary(
    service: GeminiTranscriptionService,
    stored_key: Option<String>,
    settings: Settings,
    dictionary: DictionaryStore,
    duration: Duration,
    started: Result<Job, TranscriptionError>,
)
    requires
        call_ensures(
            GeminiTranscriptionService::begin,
            (&service, &stored_key, &settings, &dictionary, duration),
            started,
        ),
    ensures
        started is Ok <==> (stored_key matches Some(key) && trim(key@).len() > 0),
        started matches Err(error) ==> error is Auth,
        started matches Ok(job) ==> {
            &&& service.suppression@ != Some(wire_vocabulary(dictionary@)) ==> texts(
                job.vocabulary@,
            ) == wire_vocabulary(dictionary@)
            &&& service.suppression@ == Some(wire_vocabulary(dictionary@)) ==> job.vocabulary@.len()
                == 0
            &&& job.stage == (Stage::Sent {
                attempt: Attempt::First,
                with_words: job.vocabulary@.len() > 0,
            })
            &&& job.duration == duration
            &&& -2 <= 4 * (job.deadline.nanos - 30_000_000_000) - duration.nanos <= 2
            &&& job.legacy_endpoint == settings.legacy_transcribe_endpoint
            &&& job.policy.native_smart == settings.smart_transcription
            &&& job.policy.cleanup_pass == settings.smart_cleanup_pass
            &&& settings.transcribe_model_override is None ==> job.config.transcribe_model@
                == "gemini-3.5-transcribe"@
        },
{
    if started is Ok {
        let job = started->Ok_0;
        assert(texts(job.vocabulary@).len() == job.vocabulary@.len());
    }
}

/// Without a second model the words that are inserted are those that were said,
/// under the dictionary's rules, and what was said is kept beside them.
pub proof fn what_was_said_is_kept(
    job: Job,
    dictionary: DictionaryStore,
    raw: &str,
    result: TranscriptionResult,
)
    requires
        !job.policy.cleanup_pass,
        call_ensures(Job::finish, (&job, &dictionary, raw), result),
    ensures
        result@.raw_transcript == raw@,
        result@.cleaned_transcript == enforced_all(rules_of(dictionary@), raw@),
        result@.model_id == job.config.transcribe_model@ + "/"@ + job.policy.mode_of().label(),
{
}

/// Where the second model fails, or its text is rejected, the words that were said
/// are inserted, under the dictionary's rules; the result names both models.
pub proof fn a_failed_cleanup_costs_nothing(
    job: Job,
    dictionary: DictionaryStore,
    raw: &str,
    reply: Result<String, TranscriptionError>,
    done: (TranscriptionResult, Option<Verdict>),
)
    requires
        job.policy.cleanup_pass,
        call_ensures(Job::finish_cleaned, (&job, &dictionary, raw, reply), done),
    ensures
        done.0@.raw_transcript == raw@,
        reply is Err || done.1 is Some ==> done.0@.cleaned_transcript == enforced_all(
            rules_of(dictionary@),
            raw@,
        ),
        done.1 matches Some(verdict) ==> reply is Ok && !verdict.accepted,
        reply is Ok && done.1 is None ==> done.0@.cleaned_transcript == enforced_all(
            rules_of(dictionary@),
            bare_text((reply->Ok_0)@),
        ),
        done.0@.model_id == job.config.transcribe_model@ + "/"@ + job.policy.mode_of().label()
            + "+"@ + job.config.cleanup_model@,
{
}

/// A cleanup request goes to the cleanup model, and its prompt closes with the
/// words that were said, holds every term of the dictionary that goes over the
/// wire, and asks for the tone of the program they are for.
pub proof fn a_cleanup_is_about_what_was_said(
    job: Job,
    dictionary: DictionaryStore,
    context: DictationContext,
    raw: &str,
    request: Request,
    i: int,
)
    requires
        call_ensures(Job::cleanup_request, (&job, &dictionary, &context, raw), request),
    ensures
        request@.model == job.config.cleanup_model@,
        request@.path == "v1beta/models/"@ + job.config.cleanup_model@ + ":generateContent"@,
        ({
            let turns = request@.body.items_at("contents"@)->0;
            let parts = turns[0].items_at("parts"@)->0;
            let words = wire_vocabulary(dictionary@);
            &&& request@.body.items_at("contents"@) is Some && turns.len() == 1
            &&& turns[0].items_at("parts"@) is Some && parts.len() == 1
            &&& parts[0].text_at("text"@) matches Some(prompt) && ({
                &&& ("RAW: "@ + raw@ + "\nCLEAN:"@).is_suffix_of(prompt)
                &&& RULES@.is_prefix_of(prompt)
                &&& 0 <= i < words.len() && i < 100 ==> occurs_in(sanitized(words[i]), prompt)
                &&& tone_of(context@.target_app_exe).words() matches Some(tone) ==> occurs_in(
                    tone,
                    prompt,
                )
            })
        }),
{
    let words = wire_vocabulary(dictionary@);
    let spellings = first(
        misspelled(ranking(dictionary@)).map_values(|e: EntryView| spelling(e)),
        SPELLING_COUNT as int,
    );
    let tone = tone_of(context@.target_app_exe);
    let all = sections(raw@, tone, words, spellings);
    let prompt = joined(all, "\n\n"@);
    a_cleanup_asks_with_its_prompt(prompt, job.config.cleanup_model@);
    assert(all[0] == RULES@);
    assert(all.last() == "RAW: "@ + raw@ + "\nCLEAN:"@);
    crate::text::every_part_stands_in_the_whole(all, "\n\n"@, 0);
    if 0 <= i {
        crate::prompt::the_dictionary_is_in_the_prompt(raw@, tone, words, spellings, i);
    }
    if tone.words() is Some {
        let at = (2 + crate::prompt::vocabulary_section(words).len()
            + crate::prompt::spelling_section(spellings).len()) as int;
        assert(all[at] == tone.words()->0);
        crate::text::every_part_stands_in_the_whole(all, "\n\n"@, at);
    }
}

/// A recording that cannot be read is refused for good.
pub proof fn an_unreadable_recording_is_permanent(detail: &str, error: TranscriptionError)
    requires
        call_ensures(unreadable_recording, (detail,), error),
    ensures
        error matches TranscriptionError::BadRequest(words) && words@
            == "unreadable recording: "@ + detail@,
{
    assert(error@ is BadRequest ==> error is BadRequest);
}

/// A dictionary that is small enough goes whole: up to a hundred terms of up to
/// two kilobytes, starred first, then newest.
pub proof fn a_small_dictionary_goes_whole(entries: Seq<EntryView>)
    requires
        ranking(entries).len() <= 100,
        forall|i: int|
            0 <= i < ranking(entries).len() ==> crate::dictionary::wire_form(
                (#[trigger] ranking(entries)[i]).term,
            ).len() > 0,
        crate::dictionary::wire_cost(
            terms(ranking(entries)).map_values(|t: Seq<char>| crate::dictionary::wire_form(t)),
        ) <= 2_048,
    ensures
        wire_vocabulary(entries).len() == ranking(entries).len(),
        forall|i: int|
            0 <= i < ranking(entries).len() ==> #[trigger] wire_vocabulary(entries)[i]
                == crate::dictionary::wire_form(ranking(entries)[i].term),
{
    let list = terms(ranking(entries));
    assert forall|i: int| 0 <= i < list.len() implies crate::dictionary::wire_form(
        #[trigger] list[i],
    ).len() > 0 by {
        assert(list[i] == ranking(entries)[i].term);
    }
    crate::dictionary::what_fits_goes_over_the_wire(list, 0, VOCABULARY_BUDGET as int);
}

/// Every misspelling in the dictionary is a rule that is enforced on the text,
/// longer ones first.
pub proof fn every_misspelling_is_enforced(entries: Seq<EntryView>, i: int)
    requires
        0 <= i < entries.len(),
        entries[i].misspelling matches Some(m) && m.len() > 0,
    ensures
        rules_of(entries).contains(
            RuleView { wrong: entries[i].misspelling->0, right: entries[i].term },
        ),
{
    let rules = misspelled(entries).map_values(|e: EntryView| rule_of(e));
    crate::dictionary::every_misspelling_is_a_rule(entries, i);
    let rule = RuleView { wrong: entries[i].misspelling->0, right: entries[i].term };
    let k = choose|k: int| 0 <= k < rules.len() && rules[k] == rule;
    crate::replacement::every_usable_rule_is_enforced(rules, k);
}

/// Only the vocabulary that broke a request is held back: any other is sent.
pub proof fn only_the_blamed_words_are_held_back(
    suppression: Suppression,
    vocabulary: Vec<String>,
    blocked: bool,
)
    requires
        call_ensures(Suppression::is_blocked, (&suppression, &vocabulary), blocked),
    ensures
        blocked <==> suppression@ == Some(texts(vocabulary@)),
        suppression.blocked is None ==> !blocked,
{
}

/// After the pause the request is sent again, with the words if there are any, and
/// a failure of that one is not waited out.
pub proof fn the_retry_carries_the_words(terms: Terms, error: ErrorView)
    ensures
        after_pause(terms).1 == (NextView::Send { with_words: terms.has_words }),
        after_pause(terms).0 == (Stage::Sent {
            attempt: Attempt::Again,
            with_words: terms.has_words,
        }),
        after_reply(terms, Attempt::Again, terms.has_words, Err(error)).next !is Pause,
{
}

} // verus!
