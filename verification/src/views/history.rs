//! History: the proof that nothing was ever lost. A library of words plus the
//! things needing attention, never an event log.

use vstd::prelude::*;

use crate::clock::{calendar_text, formatted};
use crate::history::{DictationRecord, RecordView, Stats};
use crate::meta::SessionStatus;
use crate::recovery::RetryOutcome;
use crate::text::{
    chars_of,
    decimal,
    decimal_of,
    opt_text,
    same_text,
    string_of,
    trim,
    trimmed,
};
use crate::views::widgets::{Said, SaidView, StatusTone};

verus! {

/// The most rows that are shown.
pub const PAGE_SIZE: usize = 500;

/// What is searched for: nothing if only blanks are typed.
pub fn search_query(typed: &str) -> (query: Option<String>)
    ensures
        opt_text(query) == (if trim(typed@).len() == 0 {
            None
        } else {
            Some(typed@)
        }),
{
    if trimmed(&chars_of(typed)).len() == 0 {
        None
    } else {
        Some(typed.to_owned())
    }
}

/// The form of a row's time.
pub const ROW_STAMP: &'static str = "[day] [month repr:short] [hour]:[minute]";

/// The day and the time of an instant at an offset from UTC, both in seconds.
pub open spec fn day_and_time(at: int, offset: int) -> Option<Seq<char>> {
    calendar_text(ROW_STAMP@, at * 1_000_000_000, offset)
}

/// A row's time of day.
pub fn format_time(at: i64, offset: i32) -> (text: String)
    ensures
        text@ == (match day_and_time(at as int, offset as int) {
            Some(text) => text,
            None => "unknown time"@,
        }),
{
    match formatted(ROW_STAMP, at as i128 * 1_000_000_000, offset) {
        Some(text) => text,
        None => "unknown time".to_owned(),
    }
}

/// The short word that goes in the chip.
pub open spec fn chip_words(status: SessionStatus) -> Seq<char> {
    match status {
        SessionStatus::Inserted => "Inserted"@,
        SessionStatus::CopiedToClipboard => "Copied"@,
        SessionStatus::AwaitingChip => "Copied"@,
        SessionStatus::HeldSecure => "Held back"@,
        SessionStatus::QueuedForRetry => "Queued"@,
        SessionStatus::Recovered => "Recovered"@,
        SessionStatus::Cancelled => "Cancelled"@,
        SessionStatus::Failed => "Failed"@,
        SessionStatus::Silent => "No speech"@,
        SessionStatus::Recording => "In flight"@,
        SessionStatus::Recorded => "In flight"@,
        SessionStatus::Transcribing => "In flight"@,
    }
}

pub fn status_chip_label(status: SessionStatus) -> (label: &'static str)
    ensures
        label@ == chip_words(status),
{
    match status {
        SessionStatus::Inserted => "Inserted",
        SessionStatus::CopiedToClipboard => "Copied",
        SessionStatus::AwaitingChip => "Copied",
        SessionStatus::HeldSecure => "Held back",
        SessionStatus::QueuedForRetry => "Queued",
        SessionStatus::Recovered => "Recovered",
        SessionStatus::Cancelled => "Cancelled",
        SessionStatus::Failed => "Failed",
        SessionStatus::Silent => "No speech",
        SessionStatus::Recording => "In flight",
        SessionStatus::Recorded => "In flight",
        SessionStatus::Transcribing => "In flight",
    }
}

/// What a status means.
pub open spec fn status_words(status: SessionStatus) -> Seq<char> {
    match status {
        SessionStatus::Inserted => "Inserted"@,
        SessionStatus::CopiedToClipboard => "Copied to clipboard"@,
        SessionStatus::AwaitingChip => "Copied — was ready to paste"@,
        SessionStatus::HeldSecure => "Held back from a password field"@,
        SessionStatus::QueuedForRetry => "Queued — will send when you reconnect"@,
        SessionStatus::Recovered => "Recovered — it was never put on the clipboard"@,
        SessionStatus::Cancelled => "Cancelled — the recording is kept"@,
        SessionStatus::Failed => "Failed"@,
        SessionStatus::Silent => "No speech"@,
        SessionStatus::Recording => "In flight"@,
        SessionStatus::Recorded => "In flight"@,
        SessionStatus::Transcribing => "In flight"@,
    }
}

pub fn status_label(status: SessionStatus) -> (label: &'static str)
    ensures
        label@ == status_words(status),
{
    match status {
        SessionStatus::Inserted => "Inserted",
        SessionStatus::CopiedToClipboard => "Copied to clipboard",
        SessionStatus::AwaitingChip => "Copied — was ready to paste",
        SessionStatus::HeldSecure => "Held back from a password field",
        SessionStatus::QueuedForRetry => "Queued — will send when you reconnect",
        SessionStatus::Recovered => "Recovered — it was never put on the clipboard",
        SessionStatus::Cancelled => "Cancelled — the recording is kept",
        SessionStatus::Failed => "Failed",
        SessionStatus::Silent => "No speech",
        SessionStatus::Recording => "In flight",
        SessionStatus::Recorded => "In flight",
        SessionStatus::Transcribing => "In flight",
    }
}

/// What a stored error code means, for a row without a message from the service.
pub open spec fn summary_words(code: Option<Seq<char>>, status: SessionStatus) -> Seq<char> {
    match code {
        None => status_words(status),
        Some(code) => if code == "offline"@ {
            "You were offline — it will send when you reconnect"@
        } else if code == "network"@ {
            "Couldn't reach Gemini"@
        } else if code == "timeout"@ {
            "Gemini took too long to answer"@
        } else if code == "auth"@ {
            "No usable API key — add one in Settings"@
        } else if code == "model"@ {
            "Your key can't use this model — see Settings → Advanced"@
        } else if code == "quota"@ {
            "Daily quota reached"@
        } else if code == "rate_limit"@ {
            "Rate limited — try again in a moment"@
        } else if code == "bad_request"@ {
            "Gemini refused the request"@
        } else if code == "safety"@ {
            "Gemini declined to transcribe this"@
        } else if code == "empty"@ {
            "Nothing came back from the model"@
        } else if code == "tooNoisy"@ {
            "Too noisy to make out any speech"@
        } else if code == "disk_write"@ {
            "Writing the recording failed — check free space"@
        } else if code == "engine_died"@ {
            "The microphone stopped mid-recording"@
        } else if code == "audio_purged"@ || code == "no_audio_file"@ {
            "The recording is gone, so this can't be transcribed"@
        } else {
            status_words(status)
        },
    }
}

pub fn error_summary(code: Option<&str>, status: SessionStatus) -> (summary: &'static str)
    ensures
        summary@ == summary_words(
            match code {
                Some(code) => Some(code@),
                None => None,
            },
            status,
        ),
{
    match code {
        None => status_label(status),
        Some(code) => if same_text(code, "offline") {
            "You were offline — it will send when you reconnect"
        } else if same_text(code, "network") {
            "Couldn't reach Gemini"
        } else if same_text(code, "timeout") {
            "Gemini took too long to answer"
        } else if same_text(code, "auth") {
            "No usable API key — add one in Settings"
        } else if same_text(code, "model") {
            "Your key can't use this model — see Settings → Advanced"
        } else if same_text(code, "quota") {
            "Daily quota reached"
        } else if same_text(code, "rate_limit") {
            "Rate limited — try again in a moment"
        } else if same_text(code, "bad_request") {
            "Gemini refused the request"
        } else if same_text(code, "safety") {
            "Gemini declined to transcribe this"
        } else if same_text(code, "empty") {
            "Nothing came back from the model"
        } else if same_text(code, "tooNoisy") {
            "Too noisy to make out any speech"
        } else if same_text(code, "disk_write") {
            "Writing the recording failed — check free space"
        } else if same_text(code, "engine_died") {
            "The microphone stopped mid-recording"
        } else if same_text(code, "audio_purged") || same_text(code, "no_audio_file") {
            "The recording is gone, so this can't be transcribed"
        } else {
            status_label(status)
        },
    }
}

/// How a chip is tinted.
#[derive(Debug, Clone, Copy, PartialEq, Eq, Structural)]
pub enum Tint {
    Success,
    Error,
    Muted,
    Accent,
}

pub open spec fn tint_of(status: SessionStatus) -> Tint {
    match status {
        SessionStatus::Inserted => Tint::Success,
        SessionStatus::Recovered => Tint::Success,
        SessionStatus::Failed => Tint::Error,
        SessionStatus::QueuedForRetry => Tint::Muted,
        SessionStatus::Cancelled => Tint::Muted,
        _ => Tint::Accent,
    }
}

pub fn chip_tint(status: SessionStatus) -> (tint: Tint)
    ensures
        tint == tint_of(status),
{
    match status {
        SessionStatus::Inserted | SessionStatus::Recovered => Tint::Success,
        SessionStatus::Failed => Tint::Error,
        SessionStatus::QueuedForRetry | SessionStatus::Cancelled => Tint::Muted,
        _ => Tint::Accent,
    }
}

/// A row as it is shown.
#[derive(Debug, PartialEq, Eq)]
pub struct Row {
    pub status: SessionStatus,
    /// The time, the app and the length.
    pub subtitle: String,
    /// What the row is called for those who cannot see it.
    pub spoken: String,
    /// The transcript, or what there is to know without one.
    pub body: String,
    pub can_copy: bool,
    pub can_retry: bool,
}

pub struct RowView {
    pub status: SessionStatus,
    pub subtitle: Seq<char>,
    pub spoken: Seq<char>,
    pub body: Seq<char>,
    pub can_copy: bool,
    pub can_retry: bool,
}

impl View for Row {
    type V = RowView;

    open spec fn view(&self) -> RowView {
        RowView {
            status: self.status,
            subtitle: self.subtitle@,
            spoken: self.spoken@,
            body: self.body@,
            can_copy: self.can_copy,
            can_retry: self.can_retry,
        }
    }
}

/// The status a row is shown with: its own, or a failure if it has none that is
/// known.
pub open spec fn shows(record: RecordView, status: SessionStatus) -> bool {
    record.is_status(status) || (status is Failed && forall|other: SessionStatus|
        !#[trigger] record.is_status(other))
}

/// A row, given its time and its length in words.
pub open spec fn row_of(
    record: RecordView,
    status: SessionStatus,
    time: Seq<char>,
    length: Option<Seq<char>>,
) -> RowView {
    let text = record.display();
    let has_text = text.len() > 0;
    RowView {
        status,
        subtitle: time + " · "@ + (match record.target_app_name {
            Some(name) => name,
            None => "Unknown app"@,
        }) + (match length {
            Some(length) => " · "@ + length + "s"@,
            None => Seq::empty(),
        }),
        spoken: if has_text {
            text
        } else {
            status_words(status)
        },
        body: if has_text {
            text
        } else {
            match record.error_message {
                Some(message) => message,
                None => summary_words(record.error_code, status),
            }
        },
        can_copy: has_text,
        can_retry: !has_text && (status is Failed || status is QueuedForRetry
            || status is Cancelled),
    }
}

pub fn row(record: &DictationRecord, time: &str, length: Option<&str>) -> (row: Row)
    ensures
        shows(record@, row.status),
        row@ == row_of(
            record@,
            row.status,
            time@,
            match length {
                Some(length) => Some(length@),
                None => None,
            },
        ),
{
    let status = match record.status() {
        Some(status) => status,
        None => SessionStatus::Failed,
    };
    let text = record.display_text();
    let has_text = chars_of(text.as_str()).len() > 0;
    let mut subtitle = time.to_owned();
    subtitle.append(" · ");
    match &record.target_app_name {
        Some(name) => subtitle.append(name.as_str()),
        None => subtitle.append("Unknown app"),
    }
    let ghost so_far = subtitle@;
    match length {
        Some(length) => {
            subtitle.append(" · ");
            subtitle.append(length);
            subtitle.append("s");
            assert(subtitle@ =~= so_far + (" · "@ + length@ + "s"@));
        },
        None => {
            assert(so_far + Seq::<char>::empty() =~= so_far);
        },
    }
    if has_text {
        return Row {
            status,
            subtitle,
            spoken: text.clone(),
            body: text,
            can_copy: true,
            can_retry: false,
        };
    }
    let body = match &record.error_message {
        Some(message) => message.clone(),
        None => match &record.error_code {
            Some(code) => error_summary(Some(code.as_str()), status).to_owned(),
            None => error_summary(None, status).to_owned(),
        },
    };
    Row {
        status,
        subtitle,
        spoken: status_label(status).to_owned(),
        body,
        can_copy: false,
        can_retry: matches!(
            status,
            SessionStatus::Failed | SessionStatus::QueuedForRetry | SessionStatus::Cancelled
        ),
    }
}

/// What is said above the list. With a row on show it never says that there is
/// nothing.
pub open spec fn heading(count: nat, stats: Stats) -> Seq<char> {
    let dictations = decimal(stats.total_dictations as nat);
    let words = decimal(stats.total_words as nat);
    if count == 0 && stats.total_dictations == 0 {
        "Nothing yet — hold the dictation key and say something"@
    } else if stats.total_dictations == 0 {
        decimal(count) + " saved · nothing transcribed yet"@
    } else if stats.average_wpm > 0 {
        dictations + " dictations · "@ + words + " words · about "@ + decimal(
            stats.average_wpm as nat,
        ) + " words per minute"@
    } else {
        dictations + " dictations · "@ + words + " words"@
    }
}

fn number(n: u128) -> (text: String)
    ensures
        text@ == decimal(n as nat),
{
    string_of(&decimal_of(n))
}

pub fn summary(count: usize, stats: &Stats) -> (words: String)
    ensures
        words@ == heading(count as nat, *stats),
{
    if count == 0 && stats.total_dictations == 0 {
        return "Nothing yet — hold the dictation key and say something".to_owned();
    }
    if stats.total_dictations == 0 {
        let mut words = number(count as u128);
        words.append(" saved · nothing transcribed yet");
        return words;
    }
    let mut words = number(stats.total_dictations as u128);
    words.append(" dictations · ");
    words.append(number(stats.total_words as u128).as_str());
    if stats.average_wpm > 0 {
        words.append(" words · about ");
        words.append(number(stats.average_wpm as u128).as_str());
        words.append(" words per minute");
    } else {
        words.append(" words");
    }
    words
}

/// What an empty list says.
pub fn empty_words(search_is_empty: bool) -> (words: &'static str)
    ensures
        words@ == (if search_is_empty {
            "No dictations yet."@
        } else {
            "Nothing matches that search."@
        }),
{
    if search_is_empty {
        "No dictations yet."
    } else {
        "Nothing matches that search."
    }
}

/// What is said of a retry. Every outcome says something: a silent no-op reads as
/// broken.
pub open spec fn retry_said(outcome: RetryOutcome) -> SaidView {
    match outcome {
        RetryOutcome::Recovered => SaidView {
            words: "Recovered — the text is in this row now"@,
            tone: StatusTone::Good,
        },
        RetryOutcome::StillOffline => SaidView {
            words: "Still offline — it stays queued"@,
            tone: StatusTone::Neutral,
        },
        RetryOutcome::Blocked => SaidView {
            words: "Your key or quota is blocking this — it stays queued"@,
            tone: StatusTone::Bad,
        },
        RetryOutcome::Failed => SaidView {
            words: "That one can't be recovered"@,
            tone: StatusTone::Bad,
        },
        RetryOutcome::AlreadyDone => SaidView {
            words: "Already done"@,
            tone: StatusTone::Neutral,
        },
        RetryOutcome::Busy => SaidView {
            words: "Another retry is running"@,
            tone: StatusTone::Neutral,
        },
    }
}

pub fn retry_status(outcome: RetryOutcome) -> (said: Said)
    ensures
        said@ == retry_said(outcome),
{
    match outcome {
        RetryOutcome::Recovered => Said::new(
            "Recovered — the text is in this row now",
            StatusTone::Good,
        ),
        RetryOutcome::StillOffline => Said::new(
            "Still offline — it stays queued",
            StatusTone::Neutral,
        ),
        RetryOutcome::Blocked => Said::new(
            "Your key or quota is blocking this — it stays queued",
            StatusTone::Bad,
        ),
        RetryOutcome::Failed => Said::new("That one can't be recovered", StatusTone::Bad),
        RetryOutcome::AlreadyDone => Said::new("Already done", StatusTone::Neutral),
        RetryOutcome::Busy => Said::new("Another retry is running", StatusTone::Neutral),
    }
}

/// A row has either its words to copy or a way to get them, never both.
pub proof fn a_row_is_copied_or_retried(
    record: RecordView,
    status: SessionStatus,
    time: Seq<char>,
    length: Option<Seq<char>>,
)
    ensures
        ({
            let row = row_of(record, status, time, length);
            &&& !(row.can_copy && row.can_retry)
            &&& row.can_copy ==> row.body == record.display() && row.spoken == row.body
        }),
{
}

/// Above a row that is shown, it never says that there is nothing.
pub proof fn the_heading_never_denies_a_row(count: nat, stats: Stats)
    requires
        count > 0,
    ensures
        heading(count, stats) != "Nothing yet — hold the dictation key and say something"@,
{
    reveal_strlit("Nothing yet — hold the dictation key and say something");
    let dictations = decimal(stats.total_dictations as nat);
    lemma_starts_with_a_digit(count);
    lemma_starts_with_a_digit(stats.total_dictations as nat);
    let words = heading(count, stats);
    if stats.total_dictations == 0 {
        assert(words[0] == decimal(count)[0]);
    } else {
        assert(words[0] == dictations[0]);
    }
    assert(words[0] != 'N');
}

proof fn lemma_starts_with_a_digit(n: nat)
    ensures
        decimal(n).len() > 0,
        48 <= decimal(n)[0] as int <= 57,
    decreases n,
{
    if n >= 10 {
        lemma_starts_with_a_digit(n / 10);
        assert(decimal(n)[0] == decimal(n / 10)[0]);
    }
}

/// A row shows its words where it has any, to be copied; a row without shows the
/// service's message, else what its error code means; and only a failed, a queued
/// or a cancelled one can be retried.
pub proof fn a_row_shows_its_words_or_why_not(
    record: RecordView,
    status: SessionStatus,
    time: Seq<char>,
    length: Option<Seq<char>>,
)
    ensures
        ({
            let row = row_of(record, status, time, length);
            let text = match record.cleaned_transcript {
                Some(text) => text,
                None => match record.raw_transcript {
                    Some(text) => text,
                    None => Seq::empty(),
                },
            };
            &&& row.can_copy <==> text.len() > 0
            &&& text.len() > 0 ==> row.body == text && !row.can_retry
            &&& text.len() == 0 && record.error_message is Some ==> row.body
                == record.error_message->0
            &&& text.len() == 0 && record.error_message is None ==> row.body == summary_words(
                record.error_code,
                status,
            )
            &&& text.len() == 0 ==> (row.can_retry <==> status is Failed || status is QueuedForRetry
                || status is Cancelled)
            &&& text.len() == 0 ==> row.spoken == status_words(status)
            &&& time.is_prefix_of(row.subtitle)
            &&& length is None && record.target_app_name is Some ==> row.subtitle == time + " · "@
                + record.target_app_name->0
        }),
{
    let row = row_of(record, status, time, length);
    assert(row.subtitle.take(time.len() as int) =~= time);
    if length is None && record.target_app_name is Some {
        assert(row.subtitle =~= time + " · "@ + record.target_app_name->0);
    }
}

/// What stands in the chip tells the endings apart that the user must tell apart,
/// and its tint is that of success, of failure, of waiting, or of neither.
pub proof fn a_chip_says_how_it_ended(
    status: SessionStatus,
    label: &'static str,
    tint: Tint,
)
    requires
        call_ensures(status_chip_label, (status,), label),
        call_ensures(chip_tint, (status,), tint),
    ensures
        status is Inserted ==> label@ == "Inserted"@,
        status is Failed ==> label@ == "Failed"@,
        status is QueuedForRetry ==> label@ == "Queued"@,
        status is Recovered ==> label@ == "Recovered"@,
        status is Cancelled ==> label@ == "Cancelled"@,
        status is HeldSecure ==> label@ == "Held back"@,
        status is CopiedToClipboard || status is AwaitingChip ==> label@ == "Copied"@,
        tint == Tint::Success <==> status is Inserted || status is Recovered,
        tint == Tint::Error <==> status is Failed,
        tint == Tint::Muted <==> status is QueuedForRetry || status is Cancelled,
{
}

/// The heading adds up what there is: how many dictations, how many words and, once
/// it is known, how fast.
pub proof fn the_heading_adds_up(count: nat, stats: Stats)
    requires
        stats.total_dictations > 0,
    ensures
        stats.average_wpm == 0 ==> heading(count, stats) == decimal(stats.total_dictations as nat)
            + " dictations · "@ + decimal(stats.total_words as nat) + " words"@,
        stats.average_wpm > 0 ==> heading(count, stats) == decimal(stats.total_dictations as nat)
            + " dictations · "@ + decimal(stats.total_words as nat) + " words · about "@ + decimal(
            stats.average_wpm as nat,
        ) + " words per minute"@,
{
}

/// A retry that recovered the words is good news, one that was blocked or failed is
/// bad, and the others are neither.
pub proof fn a_retry_has_its_tone(outcome: RetryOutcome)
    ensures
        retry_said(outcome).tone == StatusTone::Good <==> outcome is Recovered,
        retry_said(outcome).tone == StatusTone::Bad <==> outcome is Blocked || outcome is Failed,
{
}

/// A search is what was typed, and blanks are no search.
pub proof fn blanks_are_no_search(typed: &str, query: Option<String>)
    requires
        call_ensures(search_query, (typed,), query),
    ensures
        query is None <==> trim(typed@).len() == 0,
        query matches Some(text) ==> text@ == typed@,
{
}

} // verus!
