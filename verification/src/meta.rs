//! The record kept beside every recording.

use vstd::prelude::*;

use crate::clock::Duration;
use crate::levels::Decibels;
use crate::text::{opt_text, same_text};

verus! {

#[derive(Debug, Clone, Copy, PartialEq, Eq, Structural)]
pub enum SessionStatus {
    Recording,
    /// Audio finalized on disk; transcription not yet complete.
    Recorded,
    Transcribing,
    Inserted,
    CopiedToClipboard,
    AwaitingChip,
    HeldSecure,
    QueuedForRetry,
    /// Transcribed after a crash or an offline drain. The text was never put on
    /// the clipboard, so no screen may promise "Ready to paste".
    Recovered,
    Silent,
    Cancelled,
    Failed,
}

impl SessionStatus {
    /// The persisted form.
    pub open spec fn label(self) -> Seq<char> {
        match self {
            SessionStatus::Recording => "recording"@,
            SessionStatus::Recorded => "recorded"@,
            SessionStatus::Transcribing => "transcribing"@,
            SessionStatus::Inserted => "inserted"@,
            SessionStatus::CopiedToClipboard => "copiedToClipboard"@,
            SessionStatus::AwaitingChip => "awaitingChip"@,
            SessionStatus::HeldSecure => "heldSecure"@,
            SessionStatus::QueuedForRetry => "queuedForRetry"@,
            SessionStatus::Recovered => "recovered"@,
            SessionStatus::Silent => "silent"@,
            SessionStatus::Cancelled => "cancelled"@,
            SessionStatus::Failed => "failed"@,
        }
    }

    pub fn as_str(self) -> (s: &'static str)
        ensures
            s@ == self.label(),
    {
        match self {
            SessionStatus::Recording => "recording",
            SessionStatus::Recorded => "recorded",
            SessionStatus::Transcribing => "transcribing",
            SessionStatus::Inserted => "inserted",
            SessionStatus::CopiedToClipboard => "copiedToClipboard",
            SessionStatus::AwaitingChip => "awaitingChip",
            SessionStatus::HeldSecure => "heldSecure",
            SessionStatus::QueuedForRetry => "queuedForRetry",
            SessionStatus::Recovered => "recovered",
            SessionStatus::Silent => "silent",
            SessionStatus::Cancelled => "cancelled",
            SessionStatus::Failed => "failed",
        }
    }

    /// The status with this persisted form; an unknown one is a `None` to fall
    /// back from, not an error to propagate.
    pub fn parse(raw: &str) -> (status: Option<Self>)
        ensures
            match status {
                Some(status) => status.label() == raw@,
                None => forall|status: SessionStatus| status.label() != raw@,
            },
    {
        if same_text(raw, "recording") {
            Some(SessionStatus::Recording)
        } else if same_text(raw, "recorded") {
            Some(SessionStatus::Recorded)
        } else if same_text(raw, "transcribing") {
            Some(SessionStatus::Transcribing)
        } else if same_text(raw, "inserted") {
            Some(SessionStatus::Inserted)
        } else if same_text(raw, "copiedToClipboard") {
            Some(SessionStatus::CopiedToClipboard)
        } else if same_text(raw, "awaitingChip") {
            Some(SessionStatus::AwaitingChip)
        } else if same_text(raw, "heldSecure") {
            Some(SessionStatus::HeldSecure)
        } else if same_text(raw, "queuedForRetry") {
            Some(SessionStatus::QueuedForRetry)
        } else if same_text(raw, "recovered") {
            Some(SessionStatus::Recovered)
        } else if same_text(raw, "silent") {
            Some(SessionStatus::Silent)
        } else if same_text(raw, "cancelled") {
            Some(SessionStatus::Cancelled)
        } else if same_text(raw, "failed") {
            Some(SessionStatus::Failed)
        } else {
            None
        }
    }

    pub open spec fn in_flight(self) -> bool {
        self is Recording || self is Recorded || self is Transcribing
    }

    /// In-flight statuses are never shown in History: the live session would
    /// surface with controls that double-upload or destroy it mid-flight. Crash
    /// recovery reads them separately and normalizes every one at launch.
    pub fn is_in_flight(self) -> (yes: bool)
        ensures
            yes == self.in_flight(),
    {
        matches!(
            self,
            SessionStatus::Recording | SessionStatus::Recorded | SessionStatus::Transcribing
        )
    }
}

/// No two statuses share a persisted form, so what is written reads back as
/// itself.
pub proof fn status_labels_are_distinct(a: SessionStatus, b: SessionStatus)
    ensures
        a.label() == b.label() ==> a == b,
{
    reveal_strlit("recording");
    reveal_strlit("recorded");
    reveal_strlit("transcribing");
    reveal_strlit("inserted");
    reveal_strlit("copiedToClipboard");
    reveal_strlit("awaitingChip");
    reveal_strlit("heldSecure");
    reveal_strlit("queuedForRetry");
    reveal_strlit("recovered");
    reveal_strlit("silent");
    reveal_strlit("cancelled");
    reveal_strlit("failed");
    if a != b {
        assert(a.label().len() != b.label().len() || a.label()[0] != b.label()[0]
            || a.label()[5] != b.label()[5] || a.label()[3] != b.label()[3]);
    }
}

/// One session, as recorded.
#[derive(Debug, PartialEq, Eq)]
pub struct SessionMeta {
    pub id: u128,
    /// Nanoseconds since the Unix epoch.
    pub started_at: i128,
    pub status: SessionStatus,
    pub target_app_exe: Option<String>,
    pub target_app_name: Option<String>,
    pub audio_duration: Option<Duration>,
    /// Positions from the start where a device change may have left a seam.
    pub gap_markers: Vec<Duration>,
    pub raw_transcript: Option<String>,
    pub cleaned_transcript: Option<String>,
    pub error_code: Option<String>,
    /// Human-relevant error detail.
    pub error_message: Option<String>,
    pub model_id: Option<String>,
    /// From key-up to the end of the session.
    pub pipeline_time: Option<Duration>,
    /// How loud the room was and how loud the speech got. Recorded on every
    /// session regardless of settings.
    pub noise_floor: Option<Decibels>,
    pub speech_peak: Option<Decibels>,
}

/// What a record says.
pub struct MetaView {
    pub id: u128,
    pub started_at: int,
    pub status: SessionStatus,
    pub target_app_exe: Option<Seq<char>>,
    pub target_app_name: Option<Seq<char>>,
    pub audio_duration: Option<Duration>,
    pub gap_markers: Seq<Duration>,
    pub raw_transcript: Option<Seq<char>>,
    pub cleaned_transcript: Option<Seq<char>>,
    pub error_code: Option<Seq<char>>,
    pub error_message: Option<Seq<char>>,
    pub model_id: Option<Seq<char>>,
    pub pipeline_time: Option<Duration>,
    pub noise_floor: Option<Decibels>,
    pub speech_peak: Option<Decibels>,
}

impl View for SessionMeta {
    type V = MetaView;

    open spec fn view(&self) -> MetaView {
        MetaView {
            id: self.id,
            started_at: self.started_at as int,
            status: self.status,
            target_app_exe: opt_text(self.target_app_exe),
            target_app_name: opt_text(self.target_app_name),
            audio_duration: self.audio_duration,
            gap_markers: self.gap_markers@,
            raw_transcript: opt_text(self.raw_transcript),
            cleaned_transcript: opt_text(self.cleaned_transcript),
            error_code: opt_text(self.error_code),
            error_message: opt_text(self.error_message),
            model_id: opt_text(self.model_id),
            pipeline_time: self.pipeline_time,
            noise_floor: self.noise_floor,
            speech_peak: self.speech_peak,
        }
    }
}

impl MetaView {
    /// A record with nothing in it yet but what it is a record of.
    pub open spec fn fresh(id: u128, started_at: int, status: SessionStatus) -> MetaView {
        MetaView {
            id,
            started_at,
            status,
            target_app_exe: None,
            target_app_name: None,
            audio_duration: None,
            gap_markers: Seq::empty(),
            raw_transcript: None,
            cleaned_transcript: None,
            error_code: None,
            error_message: None,
            model_id: None,
            pipeline_time: None,
            noise_floor: None,
            speech_peak: None,
        }
    }

    /// The words to show: the cleaned transcript, else the raw one, else
    /// nothing.
    pub open spec fn display(self) -> Seq<char> {
        match self.cleaned_transcript {
            Some(text) => text,
            None => match self.raw_transcript {
                Some(text) => text,
                None => Seq::empty(),
            },
        }
    }
}

/// A copy of a list of spans.
pub fn copied_spans(spans: &Vec<Duration>) -> (copy: Vec<Duration>)
    ensures
        copy@ == spans@,
{
    let mut copy: Vec<Duration> = Vec::new();
    let mut i: usize = 0;
    while i < spans.len()
        invariant
            i <= spans@.len(),
            copy@ == spans@.take(i as int),
        decreases spans@.len() - i,
    {
        copy.push(spans[i]);
        assert(spans@.take(i + 1) == spans@.take(i as int).push(spans@[i as int]));
        i += 1;
    }
    assert(spans@.take(spans@.len() as int) == spans@);
    copy
}

impl Clone for SessionMeta {
    fn clone(&self) -> (copy: Self)
        ensures
            copy@ == self@,
    {
        SessionMeta {
            id: self.id,
            started_at: self.started_at,
            status: self.status,
            target_app_exe: self.target_app_exe.clone(),
            target_app_name: self.target_app_name.clone(),
            audio_duration: self.audio_duration,
            gap_markers: copied_spans(&self.gap_markers),
            raw_transcript: self.raw_transcript.clone(),
            cleaned_transcript: self.cleaned_transcript.clone(),
            error_code: self.error_code.clone(),
            error_message: self.error_message.clone(),
            model_id: self.model_id.clone(),
            pipeline_time: self.pipeline_time,
            noise_floor: self.noise_floor,
            speech_peak: self.speech_peak,
        }
    }
}

impl SessionMeta {
    pub fn new(id: u128, started_at: i128, status: SessionStatus) -> (meta: Self)
        ensures
            meta@ == MetaView::fresh(id, started_at as int, status),
    {
        SessionMeta {
            id,
            started_at,
            status,
            target_app_exe: None,
            target_app_name: None,
            audio_duration: None,
            gap_markers: Vec::new(),
            raw_transcript: None,
            cleaned_transcript: None,
            error_code: None,
            error_message: None,
            model_id: None,
            pipeline_time: None,
            noise_floor: None,
            speech_peak: None,
        }
    }

    pub fn display_text(&self) -> (text: String)
        ensures
            text@ == self@.display(),
    {
        match &self.cleaned_transcript {
            Some(text) => text.clone(),
            None => match &self.raw_transcript {
                Some(text) => text.clone(),
                None => String::new(),
            },
        }
    }
}

/// A status is stored under its own name, and a name that is read back is that
/// status.
pub proof fn a_status_has_its_name(status: SessionStatus)
    ensures
        status is Recording ==> status.label() == "recording"@,
        status is Recorded ==> status.label() == "recorded"@,
        status is Transcribing ==> status.label() == "transcribing"@,
        status is Inserted ==> status.label() == "inserted"@,
        status is CopiedToClipboard ==> status.label() == "copiedToClipboard"@,
        status is AwaitingChip ==> status.label() == "awaitingChip"@,
        status is HeldSecure ==> status.label() == "heldSecure"@,
        status is QueuedForRetry ==> status.label() == "queuedForRetry"@,
        status is Recovered ==> status.label() == "recovered"@,
        status is Silent ==> status.label() == "silent"@,
        status is Cancelled ==> status.label() == "cancelled"@,
        status is Failed ==> status.label() == "failed"@,
        status.in_flight() <==> status is Recording || status is Recorded || status
            is Transcribing,
{
}

/// The words to show are the cleaned ones, else what was said, else none.
pub proof fn cleaned_words_are_shown_first(meta: MetaView)
    ensures
        meta.cleaned_transcript is Some ==> meta.display() == meta.cleaned_transcript->0,
        meta.cleaned_transcript is None && meta.raw_transcript is Some ==> meta.display()
            == meta.raw_transcript->0,
        meta.cleaned_transcript is None && meta.raw_transcript is None ==> meta.display().len()
            == 0,
{
}

} // verus!
