//! Requests to the speech service and the reading of its replies.

use vstd::prelude::*;

use crate::json::{
    a_field_is_the_first_with_its_name,
    a_field_that_is_not_there_is_none,
    base64,
    encodable,
    encode,
    parse,
    parsed,
    text_of,
    trees,
    Json,
    JsonView,
};
use crate::pattern::{first_group, is_match, pattern_found, pattern_group};
use crate::settings::TranscriptionMode;
use crate::text::{
    chars_of,
    decimal,
    decimal_of,
    has_part,
    has_prefix,
    occurs_in,
    opt_text,
    same_text,
    texts,
};
use crate::unicode::{lowercase, to_lowercase};

verus! {

/// Why a request brought back no words.
#[derive(Debug, PartialEq, Eq)]
pub enum TranscriptionError {
    Offline,
    Network(String),
    /// Permanent request failure: retrying is pointless.
    BadRequest(String),
    /// The key itself was rejected.
    Auth,
    /// The key is fine but this model is gated, renamed, or unknown. Distinct
    /// from `Auth`: "fix your key" is the wrong advice here.
    ModelUnavailable { model: String, detail: Option<String> },
    /// A real daily or hard quota.
    RateLimitedDaily,
    /// A per-minute throttle: clears on its own.
    RateLimitedTransient,
    Timeout,
    EmptyTranscript,
    SafetyBlocked,
}

pub enum ErrorView {
    Offline,
    Network(Seq<char>),
    BadRequest(Seq<char>),
    Auth,
    ModelUnavailable { model: Seq<char>, detail: Option<Seq<char>> },
    RateLimitedDaily,
    RateLimitedTransient,
    Timeout,
    EmptyTranscript,
    SafetyBlocked,
}

impl View for TranscriptionError {
    type V = ErrorView;

    open spec fn view(&self) -> ErrorView {
        match self {
            TranscriptionError::Offline => ErrorView::Offline,
            TranscriptionError::Network(detail) => ErrorView::Network(detail@),
            TranscriptionError::BadRequest(detail) => ErrorView::BadRequest(detail@),
            TranscriptionError::Auth => ErrorView::Auth,
            TranscriptionError::ModelUnavailable { model, detail } => ErrorView::ModelUnavailable {
                model: model@,
                detail: opt_text(*detail),
            },
            TranscriptionError::RateLimitedDaily => ErrorView::RateLimitedDaily,
            TranscriptionError::RateLimitedTransient => ErrorView::RateLimitedTransient,
            TranscriptionError::Timeout => ErrorView::Timeout,
            TranscriptionError::EmptyTranscript => ErrorView::EmptyTranscript,
            TranscriptionError::SafetyBlocked => ErrorView::SafetyBlocked,
        }
    }
}

impl ErrorView {
    /// The error in words.
    pub open spec fn words(self) -> Seq<char> {
        match self {
            ErrorView::Offline => "offline"@,
            ErrorView::Network(detail) => "network: "@ + detail,
            ErrorView::BadRequest(detail) => "bad request: "@ + detail,
            ErrorView::Auth => "API key rejected"@,
            ErrorView::ModelUnavailable { model, .. } => "model "@ + model + " not accessible"@,
            ErrorView::RateLimitedDaily => "daily quota exhausted"@,
            ErrorView::RateLimitedTransient => "rate limited"@,
            ErrorView::Timeout => "timed out"@,
            ErrorView::EmptyTranscript => "empty transcript"@,
            ErrorView::SafetyBlocked => "blocked by safety filters"@,
        }
    }
}

impl TranscriptionError {
    /// The error in words.
    pub fn message(&self) -> (words: String)
        ensures
            words@ == self@.words(),
    {
        match self {
            TranscriptionError::Offline => "offline".to_owned(),
            TranscriptionError::Network(detail) => {
                let mut s = "network: ".to_owned();
                s.append(detail.as_str());
                s
            },
            TranscriptionError::BadRequest(detail) => {
                let mut s = "bad request: ".to_owned();
                s.append(detail.as_str());
                s
            },
            TranscriptionError::Auth => "API key rejected".to_owned(),
            TranscriptionError::ModelUnavailable { model, .. } => {
                let mut s = "model ".to_owned();
                s.append(model.as_str());
                s.append(" not accessible");
                s
            },
            TranscriptionError::RateLimitedDaily => "daily quota exhausted".to_owned(),
            TranscriptionError::RateLimitedTransient => "rate limited".to_owned(),
            TranscriptionError::Timeout => "timed out".to_owned(),
            TranscriptionError::EmptyTranscript => "empty transcript".to_owned(),
            TranscriptionError::SafetyBlocked => "blocked by safety filters".to_owned(),
        }
    }
}

pub open spec fn outcome(result: Result<String, TranscriptionError>) -> Result<
    Seq<char>,
    ErrorView,
> {
    match result {
        Ok(text) => Ok(text@),
        Err(error) => Err(error@),
    }
}

fn network(detail: &str) -> (error: TranscriptionError)
    ensures
        error@ == ErrorView::Network(detail@),
{
    TranscriptionError::Network(detail.to_owned())
}

fn network_with(kind: &str, detail: &str) -> (error: TranscriptionError)
    ensures
        error@ == ErrorView::Network(kind@ + detail@),
{
    let mut words = kind.to_owned();
    words.append(detail);
    TranscriptionError::Network(words)
}

/// The texts of the parts of a reply, one after the other.
pub open spec fn part_texts(parts: Seq<JsonView>) -> Seq<char>
    decreases parts.len(),
{
    if parts.len() == 0 {
        Seq::empty()
    } else {
        part_texts(parts.drop_last()) + (match parts.last().text_at("text"@) {
            Some(text) => text,
            None => Seq::empty(),
        })
    }
}

fn join_parts(parts: &Vec<Json>) -> (out: String)
    ensures
        out@ == part_texts(trees(parts@)),
{
    let mut out = String::new();
    let mut i: usize = 0;
    let ghost all = trees(parts@);
    assert(all.take(0) =~= Seq::<JsonView>::empty());
    while i < parts.len()
        invariant
            i <= parts@.len(),
            all == trees(parts@),
            out@ == part_texts(all.take(i as int)),
        decreases parts@.len() - i,
    {
        proof {
            assert(all.take(i + 1).drop_last() =~= all.take(i as int));
            assert(all.take(i + 1).last() == parts@[i as int]@);
        }
        let ghost before = out@;
        match parts[i].get_str("text") {
            Some(text) => out.append(text),
            None => {
                assert(before + Seq::<char>::empty() =~= before);
            },
        }
        i += 1;
    }
    assert(all.take(i as int) =~= all);
    out
}

/// What a `generateContent` reply says.
pub open spec fn text_reply(json: JsonView) -> Result<Seq<char>, ErrorView> {
    if json.within("promptFeedback"@, "blockReason"@) is Some {
        Err(ErrorView::SafetyBlocked)
    } else {
        match json.items_at("candidates"@) {
            Some(candidates) if candidates.len() > 0 => {
                let first = candidates[0];
                if first.text_at("finishReason"@) == Some("SAFETY"@) {
                    Err(ErrorView::SafetyBlocked)
                } else {
                    match first.within("content"@, "parts"@) {
                        Some(JsonView::Array(parts)) => Ok(part_texts(parts)),
                        _ => Ok(Seq::empty()),
                    }
                }
            },
            _ => Err(ErrorView::Network("no_candidates"@)),
        }
    }
}

/// Reads a `generateContent` reply. An empty transcript is a text, not an error.
pub fn read_text(json: &Json) -> (result: Result<String, TranscriptionError>)
    ensures
        outcome(result) == text_reply(json@),
{
    if json.get_within("promptFeedback", "blockReason").is_some() {
        return Err(TranscriptionError::SafetyBlocked);
    }
    match json.get_array("candidates") {
        Some(candidates) if candidates.len() > 0 => {
            let first = &candidates[0];
            assert(trees(candidates@)[0] == first@);
            if let Some(reason) = first.get_str("finishReason") {
                if same_text(reason, "SAFETY") {
                    return Err(TranscriptionError::SafetyBlocked);
                }
            }
            if let Some(parts) = first.get_within("content", "parts") {
                if let Some(parts) = parts.as_array() {
                    return Ok(join_parts(parts));
                }
            }
            let empty = String::new();
            assert(empty@ =~= Seq::<char>::empty());
            Ok(empty)
        },
        _ => Err(network("no_candidates")),
    }
}

pub fn extract_text(data: &[u8]) -> (result: Result<String, TranscriptionError>)
    ensures
        outcome(result) == (match parsed(data@) {
            Some(json) => text_reply(json),
            None => Err(ErrorView::Network("unparseable_response"@)),
        }),
{
    match parse(data) {
        Some(json) => read_text(&json),
        None => Err(network("unparseable_response")),
    }
}

/// The texts in the content of a step.
pub open spec fn content_texts(items: Seq<JsonView>) -> Seq<char>
    decreases items.len(),
{
    if items.len() == 0 {
        Seq::empty()
    } else {
        let last = items.last();
        content_texts(items.drop_last()) + (match last.text_at("text"@) {
            Some(text) if last.text_at("type"@) == Some("text"@) => text,
            _ => Seq::empty(),
        })
    }
}

/// The texts of the steps that are the model's output: what it thought on the
/// way is not.
pub open spec fn output_texts(steps: Seq<JsonView>) -> Seq<char>
    decreases steps.len(),
{
    if steps.len() == 0 {
        Seq::empty()
    } else {
        let last = steps.last();
        output_texts(steps.drop_last()) + (match last.items_at("content"@) {
            Some(items) if last.text_at("type"@) == Some("model_output"@) => content_texts(items),
            _ => Seq::empty(),
        })
    }
}

fn is_of_type(json: &Json, kind: &str) -> (yes: bool)
    ensures
        yes == (json@.text_at("type"@) == Some(kind@)),
{
    match json.get_str("type") {
        Some(found) => same_text(found, kind),
        None => false,
    }
}

fn join_content(items: &Vec<Json>) -> (out: String)
    ensures
        out@ == content_texts(trees(items@)),
{
    let mut out = String::new();
    let mut i: usize = 0;
    let ghost all = trees(items@);
    assert(all.take(0) =~= Seq::<JsonView>::empty());
    while i < items.len()
        invariant
            i <= items@.len(),
            all == trees(items@),
            out@ == content_texts(all.take(i as int)),
        decreases items@.len() - i,
    {
        let ghost before = out@;
        proof {
            assert(all.take(i + 1).drop_last() =~= all.take(i as int));
            assert(all.take(i + 1).last() == items@[i as int]@);
            assert(before + Seq::<char>::empty() =~= before);
        }
        if is_of_type(&items[i], "text") {
            if let Some(text) = items[i].get_str("text") {
                out.append(text);
            }
        }
        i += 1;
    }
    assert(all.take(i as int) =~= all);
    out
}

fn join_steps(steps: &Vec<Json>) -> (out: String)
    ensures
        out@ == output_texts(trees(steps@)),
{
    let mut out = String::new();
    let mut i: usize = 0;
    let ghost all = trees(steps@);
    assert(all.take(0) =~= Seq::<JsonView>::empty());
    while i < steps.len()
        invariant
            i <= steps@.len(),
            all == trees(steps@),
            out@ == output_texts(all.take(i as int)),
        decreases steps@.len() - i,
    {
        let ghost before = out@;
        proof {
            assert(all.take(i + 1).drop_last() =~= all.take(i as int));
            assert(all.take(i + 1).last() == steps@[i as int]@);
            assert(before + Seq::<char>::empty() =~= before);
        }
        if is_of_type(&steps[i], "model_output") {
            if let Some(items) = steps[i].get_array("content") {
                let text = join_content(items);
                out.append(text.as_str());
            }
        }
        i += 1;
    }
    assert(all.take(i as int) =~= all);
    out
}

/// The message of an error object.
pub open spec fn error_text(json: JsonView) -> Option<Seq<char>> {
    match json.within("error"@, "message"@) {
        Some(message) => message.text(),
        None => None,
    }
}

fn text_of_error(json: &Json) -> (message: Option<&str>)
    ensures
        match message {
            Some(message) => error_text(json@) == Some(message@),
            None => error_text(json@) is None,
        },
{
    match json.get_within("error", "message") {
        Some(message) => message.as_str(),
        None => None,
    }
}

/// What an interaction that did not complete means. A status nobody knows is
/// retryable: the safe direction is keeping the words recoverable.
pub open spec fn status_error(status: Seq<char>, json: JsonView) -> ErrorView {
    if status == "failed"@ || status == "error"@ {
        let detail = lowercase(
            match error_text(json) {
                Some(message) => message,
                None => ""@,
            },
        );
        if occurs_in("safety"@, detail) || occurs_in("blocked"@, detail) {
            ErrorView::SafetyBlocked
        } else {
            ErrorView::Network("interaction_failed"@)
        }
    } else {
        ErrorView::Network("interaction_status_"@ + status)
    }
}

pub fn map_interaction_status(status: &str, json: &Json) -> (error: TranscriptionError)
    ensures
        error@ == status_error(status@, json@),
{
    if same_text(status, "failed") || same_text(status, "error") {
        let detail = match text_of_error(json) {
            Some(message) => message,
            None => "",
        };
        let lowered = chars_of(to_lowercase(detail).as_str());
        if has_part(&lowered, &chars_of("safety")) || has_part(&lowered, &chars_of("blocked")) {
            return TranscriptionError::SafetyBlocked;
        }
        return network("interaction_failed");
    }
    network_with("interaction_status_", status)
}

/// What an interaction's reply says.
pub open spec fn interaction_reply(json: JsonView) -> Result<Seq<char>, ErrorView> {
    let status = match json.text_at("status"@) {
        Some(status) => status,
        None => "missing"@,
    };
    if status != "completed"@ {
        Err(status_error(status, json))
    } else {
        match json.items_at("steps"@) {
            Some(steps) => Ok(output_texts(steps)),
            None => Err(ErrorView::Network("no_steps"@)),
        }
    }
}

/// Reads an interaction's reply. An empty transcript is a text, not an error.
pub fn read_interaction(json: &Json) -> (result: Result<String, TranscriptionError>)
    ensures
        outcome(result) == interaction_reply(json@),
{
    let status = match json.get_str("status") {
        Some(status) => status,
        None => "missing",
    };
    if !same_text(status, "completed") {
        return Err(map_interaction_status(status, json));
    }
    match json.get_array("steps") {
        Some(steps) => Ok(join_steps(steps)),
        None => Err(network("no_steps")),
    }
}

pub fn extract_interaction_text(data: &[u8]) -> (result: Result<String, TranscriptionError>)
    ensures
        outcome(result) == (match parsed(data@) {
            Some(json) => interaction_reply(json),
            None => Err(ErrorView::Network("unparseable_response"@)),
        }),
{
    match parse(data) {
        Some(json) => read_interaction(&json),
        None => Err(network("unparseable_response")),
    }
}

/// The words in a reply: each of the two endpoints has a form of its own.
pub open spec fn reply_in(model_is_in_path: bool, data: Seq<u8>) -> Result<Seq<char>, ErrorView> {
    match parsed(data) {
        Some(json) => if model_is_in_path {
            text_reply(json)
        } else {
            interaction_reply(json)
        },
        None => Err(ErrorView::Network("unparseable_response"@)),
    }
}

/// Reads a reply as the endpoint that was asked writes it.
pub fn read_reply(to: &Addressee, data: &[u8]) -> (text: Result<String, TranscriptionError>)
    ensures
        outcome(text) == reply_in(to.model_is_in_path, data@),
{
    if to.model_is_in_path {
        extract_text(data)
    } else {
        extract_interaction_text(data)
    }
}

/// The message in an error reply. The endpoints do not share an envelope: one
/// wraps the object in an array.
pub open spec fn message_in(json: JsonView) -> Option<Seq<char>> {
    match json {
        JsonView::Object(_) => error_text(json),
        JsonView::Array(items) if items.len() > 0 => error_text(items[0]),
        _ => None,
    }
}

pub fn read_message(json: &Json) -> (message: Option<String>)
    ensures
        opt_text(message) == message_in(json@),
{
    let object = match json {
        Json::Object(_) => json,
        Json::Array(items) if items.len() > 0 => {
            assert(json@->Array_0[0] == items@[0]@);
            &items[0]
        },
        _ => {
            return None;
        },
    };
    match text_of_error(object) {
        Some(message) => Some(message.to_owned()),
        None => None,
    }
}

pub open spec fn message_of(data: Seq<u8>) -> Option<Seq<char>> {
    match parsed(data) {
        Some(json) => message_in(json),
        None => None,
    }
}

pub fn error_message(data: &[u8]) -> (message: Option<String>)
    ensures
        opt_text(message) == message_of(data@),
{
    match parse(data) {
        Some(json) => read_message(&json),
        None => None,
    }
}

pub const RETRY_DELAY: &'static str = r#""retryDelay"\s*:\s*"([0-9.]+)s""#;

pub const PER_DAY_QUOTA: &'static str = r#""quotaId"\s*:\s*"[^"]*PerDay[^"]*""#;

/// The text of a reply, if it is one.
pub open spec fn reply_text(data: Seq<u8>) -> Option<Seq<char>> {
    if vstd::utf8::valid_utf8(data) {
        Some(vstd::utf8::decode_utf8(data))
    } else {
        None
    }
}

/// Whether a reply names a quota that lasts the day.
pub open spec fn daily_quota(data: Seq<u8>) -> bool {
    match reply_text(data) {
        Some(body) => pattern_found(PER_DAY_QUOTA@, body) == Some(true),
        None => false,
    }
}

pub fn is_daily_quota(data: &[u8]) -> (daily: bool)
    ensures
        daily == daily_quota(data@),
{
    match text_of(data) {
        Some(body) => match is_match(PER_DAY_QUOTA, body) {
            Some(found) => found,
            None => false,
        },
        None => false,
    }
}

/// A number of seconds, as the position of the `f64` in the total order of all
/// of them: zero is at 0, and nothing below -1 is a span of time.
#[derive(Debug, Clone, Copy, PartialEq, Eq, Structural)]
pub struct Seconds {
    pub key: i64,
}

/// Where eight seconds stand.
pub const LONGEST_WAIT: i64 = 4620693217682128896;

/// What a throttled reply says of when to come back.
#[derive(Debug, PartialEq, Eq)]
pub enum RetryHint {
    /// The `Retry-After` header.
    Given(Seconds),
    /// The delay in the error's details, as it is written.
    Written(String),
    Absent,
}

pub enum HintView {
    Given(Seconds),
    Written(Seq<char>),
    Absent,
}

impl View for RetryHint {
    type V = HintView;

    open spec fn view(&self) -> HintView {
        match self {
            RetryHint::Given(seconds) => HintView::Given(*seconds),
            RetryHint::Written(text) => HintView::Written(text@),
            RetryHint::Absent => HintView::Absent,
        }
    }
}

/// The header, and if there is none what the body says.
pub fn retry_delay_seconds(data: &[u8], retry_after_header: Option<Seconds>) -> (hint: RetryHint)
    ensures
        hint@ == (match retry_after_header {
            Some(seconds) => HintView::Given(seconds),
            None => match reply_text(data@) {
                Some(body) => match pattern_group(RETRY_DELAY@, body) {
                    Some(text) => HintView::Written(text),
                    None => HintView::Absent,
                },
                None => HintView::Absent,
            },
        }),
{
    match retry_after_header {
        Some(seconds) => RetryHint::Given(seconds),
        None => match text_of(data) {
            Some(body) => match first_group(RETRY_DELAY, body) {
                Some(text) => RetryHint::Written(text),
                None => RetryHint::Absent,
            },
            None => RetryHint::Absent,
        },
    }
}

/// What to do about an answer.
#[derive(Debug, PartialEq, Eq)]
pub enum Answer {
    /// Read the body.
    Data,
    /// Wait the delay out, and send the request once more.
    Wait,
    Failed(TranscriptionError),
}

pub enum AnswerView {
    Data,
    Wait,
    Failed(ErrorView),
}

impl View for Answer {
    type V = AnswerView;

    open spec fn view(&self) -> AnswerView {
        match self {
            Answer::Data => AnswerView::Data,
            Answer::Wait => AnswerView::Wait,
            Answer::Failed(error) => AnswerView::Failed(error@),
        }
    }
}

/// Whom a request was for.
#[derive(Debug, PartialEq, Eq)]
pub struct Addressee {
    pub model: String,
    /// False when the model is named in the body: a refusal is then about the
    /// endpoint, not about the model.
    pub model_is_in_path: bool,
}

/// A status and what came with it, as an answer. `short` says that the delay
/// asked for is one to wait out.
pub open spec fn answer(
    status: u16,
    message: Option<Seq<char>>,
    daily: bool,
    model: Seq<char>,
    model_is_in_path: bool,
    retried: bool,
    short: bool,
) -> AnswerView {
    if status == 200 {
        AnswerView::Data
    } else if status == 401 {
        AnswerView::Failed(ErrorView::Auth)
    } else if status == 403 || status == 404 {
        AnswerView::Failed(
            if model_is_in_path {
                ErrorView::ModelUnavailable { model, detail: message }
            } else {
                ErrorView::Network("interactions_unavailable_"@ + decimal(status as nat))
            },
        )
    } else if status == 429 {
        if !retried && short {
            AnswerView::Wait
        } else if daily {
            AnswerView::Failed(ErrorView::RateLimitedDaily)
        } else {
            AnswerView::Failed(ErrorView::RateLimitedTransient)
        }
    } else if status == 400 {
        AnswerView::Failed(
            ErrorView::BadRequest(
                match message {
                    Some(message) => message,
                    None => "http_400"@,
                },
            ),
        )
    } else if 500 <= status <= 599 {
        AnswerView::Failed(ErrorView::Network("http_"@ + decimal(status as nat)))
    } else {
        AnswerView::Failed(
            ErrorView::Network(
                match message {
                    Some(message) => message,
                    None => "http_"@ + decimal(status as nat),
                },
            ),
        )
    }
}

/// Whether a delay is one to wait out.
pub open spec fn short(delay: Option<Seconds>) -> bool {
    delay matches Some(delay) && delay.key <= LONGEST_WAIT
}

fn network_status(kind: &str, status: u16) -> (error: TranscriptionError)
    ensures
        error@ == ErrorView::Network(kind@ + decimal(status as nat)),
{
    let digits = decimal_of(status as u128);
    network_with(kind, crate::text::string_of(&digits).as_str())
}

/// One mapping for every endpoint: what is kept for later and what is given up
/// depends on it.
pub fn judge_answer(
    status: u16,
    message: Option<String>,
    daily: bool,
    to: &Addressee,
    retried: bool,
    delay: Option<Seconds>,
) -> (what: Answer)
    requires
        status == 429 && !retried && delay is Some ==> (delay->0).key >= -1,
    ensures
        what@ == answer(
            status,
            opt_text(message),
            daily,
            to.model@,
            to.model_is_in_path,
            retried,
            short(delay),
        ),
{
    if status == 200 {
        return Answer::Data;
    }
    if status == 401 {
        return Answer::Failed(TranscriptionError::Auth);
    }
    if status == 403 || status == 404 {
        return if to.model_is_in_path {
            Answer::Failed(
                TranscriptionError::ModelUnavailable { model: to.model.clone(), detail: message },
            )
        } else {
            Answer::Failed(network_status("interactions_unavailable_", status))
        };
    }
    if status == 429 {
        let waits = match delay {
            Some(delay) => !retried && delay.key <= LONGEST_WAIT,
            None => false,
        };
        return if waits {
            Answer::Wait
        } else if daily {
            Answer::Failed(TranscriptionError::RateLimitedDaily)
        } else {
            Answer::Failed(TranscriptionError::RateLimitedTransient)
        };
    }
    if status == 400 {
        let words = match message {
            Some(message) => message,
            None => "http_400".to_owned(),
        };
        return Answer::Failed(TranscriptionError::BadRequest(words));
    }
    if 500 <= status && status <= 599 {
        return Answer::Failed(network_status("http_", status));
    }
    match message {
        Some(message) => Answer::Failed(TranscriptionError::Network(message)),
        None => Answer::Failed(network_status("http_", status)),
    }
}

/// What to do about an answer, given its body.
pub fn read_answer(
    status: u16,
    data: &[u8],
    to: &Addressee,
    retried: bool,
    delay: Option<Seconds>,
) -> (what: Answer)
    requires
        status == 429 && !retried && delay is Some ==> (delay->0).key >= -1,
    ensures
        what@ == answer(
            status,
            message_of(data@),
            daily_quota(data@),
            to.model@,
            to.model_is_in_path,
            retried,
            short(delay),
        ),
{
    judge_answer(status, error_message(data), is_daily_quota(data), to, retried, delay)
}

/// How a request can come to no answer at all.
#[derive(Debug, PartialEq, Eq)]
pub enum Silence {
    /// The deadline passed, or the connection timed out.
    TimedOut,
    /// No connection could be made.
    Unconnected,
    Broken(String),
}

pub fn no_answer(silence: Silence) -> (error: TranscriptionError)
    ensures
        error@ == (match silence {
            Silence::TimedOut => ErrorView::Timeout,
            Silence::Unconnected => ErrorView::Offline,
            Silence::Broken(detail) => ErrorView::Network(detail@),
        }),
{
    match silence {
        Silence::TimedOut => TranscriptionError::Timeout,
        Silence::Unconnected => TranscriptionError::Offline,
        Silence::Broken(detail) => TranscriptionError::Network(detail),
    }
}

/// What a key check came to. "No" is not enough to act on: a key the server
/// rejected must block, a check that could not be made must not.
#[derive(Debug, PartialEq, Eq)]
pub enum KeyCheck {
    Valid,
    /// The server answered, and the answer was no.
    Rejected(Option<String>),
    /// There was no answer. Not the key's fault.
    Unreachable,
}

pub enum KeyCheckView {
    Valid,
    Rejected(Option<Seq<char>>),
    Unreachable,
}

impl View for KeyCheck {
    type V = KeyCheckView;

    open spec fn view(&self) -> KeyCheckView {
        match self {
            KeyCheck::Valid => KeyCheckView::Valid,
            KeyCheck::Rejected(why) => KeyCheckView::Rejected(opt_text(*why)),
            KeyCheck::Unreachable => KeyCheckView::Unreachable,
        }
    }
}

/// A status, if there was an answer, as a verdict on the key.
pub open spec fn key_verdict(status: Option<u16>, message: Option<Seq<char>>) -> KeyCheckView {
    match status {
        None => KeyCheckView::Unreachable,
        Some(status) => if status == 200 {
            KeyCheckView::Valid
        } else if 500 <= status <= 599 {
            KeyCheckView::Unreachable
        } else {
            KeyCheckView::Rejected(message)
        },
    }
}

pub fn judge_key(status: Option<u16>, message: Option<String>) -> (check: KeyCheck)
    ensures
        check@ == key_verdict(status, opt_text(message)),
{
    match status {
        None => KeyCheck::Unreachable,
        Some(status) => if status == 200 {
            KeyCheck::Valid
        } else if 500 <= status && status <= 599 {
            KeyCheck::Unreachable
        } else {
            KeyCheck::Rejected(message)
        },
    }
}

/// The verdict on a key, given the answer to a request made with it.
pub fn validate_key(status: Option<u16>, data: &[u8]) -> (check: KeyCheck)
    ensures
        check@ == key_verdict(status, message_of(data@)),
{
    judge_key(status, error_message(data))
}

/// What the search for a model does next.
#[derive(Debug, PartialEq, Eq)]
pub enum ModelStep {
    Ask(String),
    Found(String),
    Nothing,
}

/// The search for the first model that a key can reach.
#[derive(Debug)]
pub struct ModelSearch {
    pub candidates: Vec<String>,
    pub at: usize,
}

pub enum ModelStepView {
    Ask(Seq<char>),
    Found(Seq<char>),
    Nothing,
}

impl View for ModelStep {
    type V = ModelStepView;

    open spec fn view(&self) -> ModelStepView {
        match self {
            ModelStep::Ask(model) => ModelStepView::Ask(model@),
            ModelStep::Found(model) => ModelStepView::Found(model@),
            ModelStep::Nothing => ModelStepView::Nothing,
        }
    }
}

/// The question at a place in the list.
pub open spec fn question(candidates: Seq<Seq<char>>, at: int) -> ModelStepView {
    if at < candidates.len() {
        ModelStepView::Ask(candidates[at])
    } else {
        ModelStepView::Nothing
    }
}

/// Whether an answer says that the model is there.
pub open spec fn reachable(status: Option<u16>) -> bool {
    status matches Some(status) && 200 <= status <= 299
}

/// What an answer to the question at a place leads to.
pub open spec fn heard(candidates: Seq<Seq<char>>, at: int, status: Option<u16>) -> ModelStepView {
    if reachable(status) {
        ModelStepView::Found(candidates[at])
    } else {
        question(candidates, at + 1)
    }
}

/// Where a search from a place on ends, given the answer for each candidate.
pub open spec fn searched(
    candidates: Seq<Seq<char>>,
    answers: Seq<Option<u16>>,
    at: int,
) -> ModelStepView
    decreases candidates.len() - at,
{
    match question(candidates, at) {
        ModelStepView::Ask(_) => match heard(candidates, at, answers[at]) {
            ModelStepView::Ask(_) => searched(candidates, answers, at + 1),
            end => end,
        },
        end => end,
    }
}

impl ModelSearch {
    pub fn new(candidates: Vec<String>) -> (search: Self)
        ensures
            search.candidates == candidates,
            search.at == 0,
    {
        ModelSearch { candidates, at: 0 }
    }

    pub fn ask(&self) -> (step: ModelStep)
        ensures
            step@ == question(texts(self.candidates@), self.at as int),
    {
        if self.at < self.candidates.len() {
            ModelStep::Ask(self.candidates[self.at].clone())
        } else {
            ModelStep::Nothing
        }
    }

    /// The answer to the question at hand.
    pub fn hear(&mut self, status: Option<u16>) -> (step: ModelStep)
        requires
            old(self).at < old(self).candidates@.len(),
        ensures
            final(self).candidates == old(self).candidates,
            step@ == heard(texts(old(self).candidates@), old(self).at as int, status),
            final(self).at == (if reachable(status) {
                old(self).at as int
            } else {
                old(self).at + 1
            }),
    {
        let count: usize = self.candidates.len();
        assert(self.at < count);
        let success = match status {
            Some(status) => 200 <= status && status <= 299,
            None => false,
        };
        if success {
            return ModelStep::Found(self.candidates[self.at].clone());
        }
        self.at = self.at + 1;
        self.ask()
    }
}

/// A value in the views of fields.
pub open spec fn field_views(fields: Seq<(String, Json)>) -> Seq<(Seq<char>, JsonView)> {
    fields.map_values(|p: (String, Json)| (p.0@, p.1@))
}

fn pair(key: &str, value: Json) -> (field: (String, Json))
    ensures
        field.0@ == key@,
        field.1 == value,
{
    (key.to_owned(), value)
}

fn object(fields: Vec<(String, Json)>) -> (json: Json)
    ensures
        json@ == JsonView::Object(field_views(fields@)),
{
    let json = Json::Object(fields);
    assert(json@->Object_0 =~= field_views(fields@));
    json
}

fn object_of(key: &str, value: Json) -> (json: Json)
    ensures
        json@ == JsonView::Object(seq![(key@, value@)]),
{
    let fields = vec![pair(key, value)];
    assert(field_views(fields@) =~= seq![(key@, value@)]);
    object(fields)
}

fn object_of_two(a: &str, one: Json, b: &str, two: Json) -> (json: Json)
    ensures
        json@ == JsonView::Object(seq![(a@, one@), (b@, two@)]),
{
    let fields = vec![pair(a, one), pair(b, two)];
    assert(field_views(fields@) =~= seq![(a@, one@), (b@, two@)]);
    object(fields)
}

fn list_of(item: Json) -> (json: Json)
    ensures
        json@ == JsonView::Array(seq![item@]),
{
    let items = vec![item];
    let json = Json::Array(items);
    assert(json@->Array_0 =~= seq![item@]);
    json
}

fn text(s: &str) -> (json: Json)
    ensures
        json@ == JsonView::Text(s@),
{
    Json::Text(s.to_owned())
}

/// A list of texts.
pub open spec fn text_list(list: Seq<Seq<char>>) -> JsonView {
    JsonView::Array(list.map_values(|s: Seq<char>| JsonView::Text(s)))
}

fn list_of_texts(list: &Vec<String>) -> (json: Json)
    ensures
        json@ == text_list(texts(list@)),
{
    let mut items: Vec<Json> = Vec::new();
    let mut i: usize = 0;
    while i < list.len()
        invariant
            i <= list@.len(),
            items@.len() == i,
            forall|k: int| 0 <= k < i ==> (#[trigger] items@[k])@ == JsonView::Text(list@[k]@),
        decreases list@.len() - i,
    {
        items.push(Json::Text(list[i].clone()));
        i += 1;
    }
    let json = Json::Array(items);
    assert(json@->Array_0 =~= texts(list@).map_values(|s: Seq<char>| JsonView::Text(s)));
    json
}

/// The vocabulary under a name, if there is any.
pub open spec fn vocabulary_field(name: Seq<char>, vocabulary: Seq<Seq<char>>) -> Seq<
    (Seq<char>, JsonView),
> {
    if vocabulary.len() == 0 {
        Seq::empty()
    } else {
        seq![(name, text_list(vocabulary))]
    }
}

/// The transcription settings of an interaction. There is no field for the
/// language: it would silently switch smart mode off.
pub open spec fn config_of(mode: TranscriptionMode, vocabulary: Seq<Seq<char>>) -> Option<
    JsonView,
> {
    let words = vocabulary_field("custom_vocabulary"@, vocabulary);
    match mode {
        TranscriptionMode::Verbatim => if vocabulary.len() == 0 {
            None
        } else {
            Some(JsonView::Object(words))
        },
        TranscriptionMode::Smart => Some(
            JsonView::Object(seq![("mode"@, JsonView::Text("smart"@))] + words),
        ),
    }
}

pub fn transcription_config(mode: TranscriptionMode, custom_vocabulary: &Vec<String>) -> (config:
    Option<Json>)
    ensures
        crate::json::opt_json(config) == config_of(mode, texts(custom_vocabulary@)),
{
    let mut fields: Vec<(String, Json)> = Vec::new();
    let ghost vocabulary = texts(custom_vocabulary@);
    if mode == TranscriptionMode::Smart {
        fields.push(pair("mode", text("smart")));
    }
    if custom_vocabulary.len() > 0 {
        fields.push(pair("custom_vocabulary", list_of_texts(custom_vocabulary)));
    }
    if fields.len() == 0 {
        return None;
    }
    proof {
        let words = vocabulary_field("custom_vocabulary"@, vocabulary);
        if mode == TranscriptionMode::Smart {
            assert(field_views(fields@) =~= seq![("mode"@, JsonView::Text("smart"@))] + words);
        } else {
            assert(field_views(fields@) =~= words);
        }
    }
    Some(object(fields))
}

/// A request: where it goes, what it says, and whom it is for.
#[derive(Debug)]
pub struct Request {
    pub path: String,
    pub body: Json,
    pub to: Addressee,
}

pub struct RequestView {
    pub path: Seq<char>,
    pub body: JsonView,
    pub model: Seq<char>,
    pub model_is_in_path: bool,
}

impl View for Request {
    type V = RequestView;

    open spec fn view(&self) -> RequestView {
        RequestView {
            path: self.path@,
            body: self.body@,
            model: self.to.model@,
            model_is_in_path: self.to.model_is_in_path,
        }
    }
}

/// The path for generating content with a model.
pub open spec fn generate_path(model: Seq<char>) -> Seq<char> {
    "v1beta/models/"@ + model + ":generateContent"@
}

fn path_for(model: &str) -> (path: String)
    ensures
        path@ == generate_path(model@),
{
    let mut path = "v1beta/models/".to_owned();
    path.append(model);
    path.append(":generateContent");
    path
}

/// One turn of the user.
pub open spec fn turn(part: JsonView) -> JsonView {
    JsonView::Array(
        seq![
            JsonView::Object(
                seq![
                    ("role"@, JsonView::Text("user"@)),
                    ("parts"@, JsonView::Array(seq![part])),
                ],
            ),
        ],
    )
}

fn turn_of(part: Json) -> (json: Json)
    ensures
        json@ == turn(part@),
{
    list_of(object_of_two("role", text("user"), "parts", list_of(part)))
}

/// A request for the words of a recording. The timestamps must be asked for, or
/// the transcript comes back empty.
pub open spec fn transcription(
    audio: Seq<u8>,
    mime_type: Seq<char>,
    model: Seq<char>,
    vocabulary: Seq<Seq<char>>,
) -> RequestView {
    let sound = JsonView::Object(
        seq![("mime_type"@, JsonView::Text(mime_type)), ("data"@, JsonView::Text(base64(audio)))],
    );
    let settings = JsonView::Object(
        seq![("wordTimestamp"@, JsonView::Bool(true)), ("diarization"@, JsonView::Bool(false))]
            + vocabulary_field("customVocabulary"@, vocabulary),
    );
    RequestView {
        path: generate_path(model),
        body: JsonView::Object(
            seq![
                ("contents"@, turn(JsonView::Object(seq![("inline_data"@, sound)]))),
                (
                    "generationConfig"@,
                    JsonView::Object(
                        seq![
                            ("temperature"@, JsonView::Number("0"@)),
                            ("audioTranscriptionConfig"@, settings),
                        ],
                    ),
                ),
            ],
        ),
        model,
        model_is_in_path: true,
    }
}

pub fn transcribe(audio: &[u8], mime_type: &str, model: &str, custom_vocabulary: &Vec<String>) -> (
request: Request)
    requires
        encodable(audio@),
    ensures
        request@ == transcription(audio@, mime_type@, model@, texts(custom_vocabulary@)),
{
    let sound = object_of_two(
        "mime_type",
        text(mime_type),
        "data",
        Json::Text(encode(audio)),
    );
    let mut settings: Vec<(String, Json)> = Vec::new();
    settings.push(pair("wordTimestamp", Json::Bool(true)));
    settings.push(pair("diarization", Json::Bool(false)));
    if custom_vocabulary.len() > 0 {
        settings.push(pair("customVocabulary", list_of_texts(custom_vocabulary)));
    }
    proof {
        assert(field_views(settings@) =~= seq![
            ("wordTimestamp"@, JsonView::Bool(true)),
            ("diarization"@, JsonView::Bool(false)),
        ] + vocabulary_field("customVocabulary"@, texts(custom_vocabulary@)));
    }
    let body = object_of_two(
        "contents",
        turn_of(object_of("inline_data", sound)),
        "generationConfig",
        object_of_two(
            "temperature",
            Json::Number("0".to_owned()),
            "audioTranscriptionConfig",
            object(settings),
        ),
    );
    Request {
        path: path_for(model),
        body,
        to: Addressee { model: model.to_owned(), model_is_in_path: true },
    }
}

/// A request for an interaction. The model is named in the body, and only here
/// does smart mode work.
pub open spec fn interaction(
    audio: Seq<u8>,
    mime_type: Seq<char>,
    model: Seq<char>,
    mode: TranscriptionMode,
    vocabulary: Seq<Seq<char>>,
) -> RequestView {
    let sound = JsonView::Object(
        seq![
            ("type"@, JsonView::Text("audio"@)),
            ("mime_type"@, JsonView::Text(mime_type)),
            ("data"@, JsonView::Text(base64(audio))),
        ],
    );
    let config = match config_of(mode, vocabulary) {
        Some(config) => seq![
            ("generation_config"@, JsonView::Object(seq![("transcription_config"@, config)])),
        ],
        None => Seq::empty(),
    };
    RequestView {
        path: "v1beta/interactions"@,
        body: JsonView::Object(
            seq![
                ("model"@, JsonView::Text(model)),
                ("input"@, JsonView::Array(seq![sound])),
            ] + config,
        ),
        model,
        model_is_in_path: false,
    }
}

pub fn transcribe_interaction(
    audio: &[u8],
    mime_type: &str,
    model: &str,
    mode: TranscriptionMode,
    custom_vocabulary: &Vec<String>,
) -> (request: Request)
    requires
        encodable(audio@),
    ensures
        request@ == interaction(audio@, mime_type@, model@, mode, texts(custom_vocabulary@)),
{
    let parts = vec![
        pair("type", text("audio")),
        pair("mime_type", text(mime_type)),
        pair("data", Json::Text(encode(audio))),
    ];
    proof {
        assert(field_views(parts@) =~= seq![
            ("type"@, JsonView::Text("audio"@)),
            ("mime_type"@, JsonView::Text(mime_type@)),
            ("data"@, JsonView::Text(base64(audio@))),
        ]);
    }
    let mut fields: Vec<(String, Json)> = Vec::new();
    fields.push(pair("model", text(model)));
    fields.push(pair("input", list_of(object(parts))));
    match transcription_config(mode, custom_vocabulary) {
        Some(config) => {
            fields.push(pair("generation_config", object_of("transcription_config", config)));
        },
        None => {},
    }
    let body = object(fields);
    let request = Request {
        path: "v1beta/interactions".to_owned(),
        body,
        to: Addressee { model: model.to_owned(), model_is_in_path: false },
    };
    assert(request@.body->Object_0 =~= interaction(
        audio@,
        mime_type@,
        model@,
        mode,
        texts(custom_vocabulary@),
    ).body->Object_0);
    request
}

/// How little a model is to think. The two generations name it differently.
pub open spec fn thinking(model: Seq<char>) -> JsonView {
    if "gemini-2"@.is_prefix_of(model) {
        JsonView::Object(seq![("thinkingBudget"@, JsonView::Number("0"@))])
    } else {
        JsonView::Object(seq![("thinkingLevel"@, JsonView::Text("low"@))])
    }
}

/// A request for a text cleaned up.
pub open spec fn cleaning(prompt: Seq<char>, model: Seq<char>) -> RequestView {
    RequestView {
        path: generate_path(model),
        body: JsonView::Object(
            seq![
                ("contents"@, turn(JsonView::Object(seq![("text"@, JsonView::Text(prompt))]))),
                (
                    "generationConfig"@,
                    JsonView::Object(
                        seq![
                            ("temperature"@, JsonView::Number("0"@)),
                            ("thinkingConfig"@, thinking(model)),
                        ],
                    ),
                ),
            ],
        ),
        model,
        model_is_in_path: true,
    }
}

pub fn cleanup(prompt: &str, model: &str) -> (request: Request)
    ensures
        request@ == cleaning(prompt@, model@),
{
    let sparing = if has_prefix(&chars_of(model), &chars_of("gemini-2")) {
        object_of("thinkingBudget", Json::Number("0".to_owned()))
    } else {
        object_of("thinkingLevel", text("low"))
    };
    let body = object_of_two(
        "contents",
        turn_of(object_of("text", text(prompt))),
        "generationConfig",
        object_of_two("temperature", Json::Number("0".to_owned()), "thinkingConfig", sparing),
    );
    Request {
        path: path_for(model),
        body,
        to: Addressee { model: model.to_owned(), model_is_in_path: true },
    }
}

/// Where a request goes. The key is not in it.
pub fn url(endpoint: &str, path: &str) -> (url: String)
    ensures
        url@ == endpoint@ + "/"@ + path@,
{
    let mut url = endpoint.to_owned();
    url.append("/");
    url.append(path);
    url
}

/// Where a key is checked.
pub fn key_check_url(endpoint: &str) -> (check: String)
    ensures
        check@ == endpoint@ + "/"@ + "v1beta/models?pageSize=1"@,
{
    url(endpoint, "v1beta/models?pageSize=1")
}

/// Where a model is looked up.
pub fn model_url(endpoint: &str, model: &str) -> (lookup: String)
    ensures
        lookup@ == endpoint@ + "/"@ + ("v1beta/models/"@ + model@),
{
    let mut path = "v1beta/models/".to_owned();
    path.append(model);
    url(endpoint, path.as_str())
}

/// Whatever the vocabulary, smart mode is asked for by name and no language is
/// pinned.
pub proof fn smart_mode_is_never_switched_off(vocabulary: Seq<Seq<char>>)
    ensures
        config_of(TranscriptionMode::Smart, vocabulary) matches Some(config) && config.text_at(
            "mode"@,
        ) == Some("smart"@) && config.field("language_codes"@) is None,
{
    reveal_strlit("mode");
    reveal_strlit("language_codes");
    reveal_strlit("custom_vocabulary");
    assert("mode"@.len() != "language_codes"@.len());
    assert("custom_vocabulary"@.len() != "language_codes"@.len());
    let config = config_of(TranscriptionMode::Smart, vocabulary)->Some_0;
    let fields = config->Object_0;
    assert(fields[0] == ("mode"@, JsonView::Text("smart"@)));
    let rest = fields.skip(1);
    assert(crate::json::found(fields, "language_codes"@) == crate::json::found(
        rest,
        "language_codes"@,
    ));
    if vocabulary.len() > 0 {
        assert(rest[0].0 == "custom_vocabulary"@);
        assert(rest.skip(1).len() == 0);
        assert(crate::json::found(rest.skip(1), "language_codes"@) is None);
    }
}

/// The server's default needs no settings: they are left out exactly when there
/// is nothing to say.
pub proof fn verbatim_says_nothing_without_words(vocabulary: Seq<Seq<char>>)
    ensures
        config_of(TranscriptionMode::Verbatim, vocabulary) is None <==> vocabulary.len() == 0,
{
}

/// A throttled request is sent again at most once.
pub proof fn a_throttle_is_waited_out_once(
    status: u16,
    message: Option<Seq<char>>,
    daily: bool,
    model: Seq<char>,
    model_is_in_path: bool,
    short: bool,
)
    ensures
        answer(status, message, daily, model, model_is_in_path, true, short) !is Wait,
{
}

/// Only a throttle that names a daily quota is final, and only a malformed
/// request is refused for good: every other failure leaves the words queued or
/// points at the key or the model.
pub proof fn only_a_named_quota_is_daily(
    status: u16,
    message: Option<Seq<char>>,
    daily: bool,
    model: Seq<char>,
    model_is_in_path: bool,
    retried: bool,
    short: bool,
)
    ensures
        ({
            let what = answer(status, message, daily, model, model_is_in_path, retried, short);
            &&& what == AnswerView::Failed(ErrorView::RateLimitedDaily) ==> status == 429 && daily
            &&& (what matches AnswerView::Failed(error) && error is BadRequest) <==> status == 400
            &&& what == AnswerView::Failed(ErrorView::Auth) <==> status == 401
            &&& (what matches AnswerView::Failed(error) && error is ModelUnavailable) <==> (status
                == 403 || status == 404) && model_is_in_path
        }),
{
}

/// A status that is neither a failure nor a success is retryable, whatever it
/// says.
pub proof fn unknown_statuses_stay_retryable(json: JsonView)
    requires
        json.text_at("status"@) matches Some(status) ==> status != "completed"@ && status
            != "failed"@ && status != "error"@,
    ensures
        interaction_reply(json) matches Err(error) && error is Network,
{
    reveal_strlit("missing");
    reveal_strlit("completed");
    reveal_strlit("failed");
    reveal_strlit("error");
    assert("missing"@.len() != "completed"@.len());
    assert("missing"@.len() != "failed"@.len());
    assert("missing"@.len() != "error"@.len());
}

/// The search ends at the first model that answers, and at nothing if none does.
pub proof fn the_first_reachable_model_is_found(
    candidates: Seq<Seq<char>>,
    answers: Seq<Option<u16>>,
    at: int,
)
    requires
        0 <= at <= candidates.len(),
        candidates.len() == answers.len(),
    ensures
        match searched(candidates, answers, at) {
            ModelStepView::Found(model) => exists|i: int|
                at <= i < candidates.len() && model == candidates[i] && reachable(
                    #[trigger] answers[i],
                ) && (forall|k: int| at <= k < i ==> !reachable(#[trigger] answers[k])),
            ModelStepView::Nothing => forall|k: int|
                at <= k < candidates.len() ==> !reachable(#[trigger] answers[k]),
            ModelStepView::Ask(_) => false,
        },
    decreases candidates.len() - at,
{
    if at < candidates.len() {
        if reachable(answers[at]) {
            assert(heard(candidates, at, answers[at]) is Found);
        } else {
            the_first_reachable_model_is_found(candidates, answers, at + 1);
            if searched(candidates, answers, at + 1) is Found {
                let i = choose|i: int|
                    at + 1 <= i < candidates.len() && searched(candidates, answers, at + 1)
                        == ModelStepView::Found(candidates[i]) && reachable(#[trigger] answers[i])
                        && (forall|k: int| at + 1 <= k < i ==> !reachable(#[trigger] answers[k]));
                assert(reachable(answers[i]));
                assert(forall|k: int| at <= k < i ==> !reachable(#[trigger] answers[k]));
            }
            if at + 1 == candidates.len() {
                assert(heard(candidates, at, answers[at]) is Nothing);
            }
        }
    }
}

/// A list of texts, as JSON: as many, each one in its place.
pub open spec fn lists(json: Option<JsonView>, words: Seq<Seq<char>>) -> bool {
    json matches Some(JsonView::Array(items)) && items.len() == words.len() && forall|i: int|
        0 <= i < items.len() ==> #[trigger] items[i] == JsonView::Text(words[i])
}

proof fn lemma_same_list(json: Option<JsonView>, a: Seq<Seq<char>>, b: Seq<Seq<char>>)
    requires
        lists(json, a),
        lists(json, b),
    ensures
        a == b,
{
    let items = json->0->Array_0;
    assert forall|i: int| 0 <= i < a.len() implies a[i] == b[i] by {
        assert(items[i] == JsonView::Text(a[i]));
        assert(items[i] == JsonView::Text(b[i]));
    }
    assert(a =~= b);
}

/// The field of a field of a value.
pub open spec fn deep(json: JsonView, outer: Seq<char>, inner: Seq<char>, key: Seq<char>) -> Option<
    JsonView,
> {
    match json.field(outer) {
        Some(value) => match value.field(inner) {
            Some(value) => value.field(key),
            None => None,
        },
        None => None,
    }
}

/// Where the `generateContent` request keeps the words to listen for.
pub open spec fn generated_words(body: JsonView) -> Option<JsonView> {
    deep(body, "generationConfig"@, "audioTranscriptionConfig"@, "customVocabulary"@)
}

/// Where the interaction request keeps them.
pub open spec fn interaction_words(body: JsonView) -> Option<JsonView> {
    deep(body, "generation_config"@, "transcription_config"@, "custom_vocabulary"@)
}

/// A `generateContent` request carries every word of the vocabulary, in order,
/// and none where there is none; the recording, in base64; and the timestamps
/// without which the transcript comes back empty. It goes to the model's own
/// address.
pub proof fn a_transcription_carries_its_words(
    audio: Seq<u8>,
    mime_type: Seq<char>,
    model: Seq<char>,
    words: Seq<Seq<char>>,
)
    ensures
        ({
            let request = transcription(audio, mime_type, model, words);
            let body = request.body;
            &&& words.len() > 0 ==> lists(generated_words(body), words)
            &&& words.len() == 0 ==> generated_words(body) is None
            &&& deep(body, "generationConfig"@, "audioTranscriptionConfig"@, "wordTimestamp"@)
                == Some(JsonView::Bool(true))
            &&& body.items_at("contents"@) matches Some(turns) && turns.len() == 1 && (
            turns[0].items_at("parts"@) matches Some(parts) && parts.len() == 1 && parts[0].within(
                "inline_data"@,
                "data"@,
            ) == Some(JsonView::Text(base64(audio))) && parts[0].within(
                "inline_data"@,
                "mime_type"@,
            ) == Some(JsonView::Text(mime_type)))
            &&& request.path == "v1beta/models/"@ + model + ":generateContent"@
            &&& request.model == model
            &&& request.model_is_in_path
        }),
{
    reveal_strlit("contents");
    reveal_strlit("generationConfig");
    reveal_strlit("temperature");
    reveal_strlit("audioTranscriptionConfig");
    reveal_strlit("wordTimestamp");
    reveal_strlit("diarization");
    reveal_strlit("customVocabulary");
    reveal_strlit("role");
    reveal_strlit("parts");
    reveal_strlit("inline_data");
    reveal_strlit("mime_type");
    reveal_strlit("data");
    let body = transcription(audio, mime_type, model, words).body;
    let fields = body->Object_0;
    assert("contents"@.len() != "generationConfig"@.len());
    a_field_is_the_first_with_its_name(fields, "generationConfig"@, 1);
    a_field_is_the_first_with_its_name(fields, "contents"@, 0);
    let generation = fields[1].1->Object_0;
    assert("temperature"@.len() != "audioTranscriptionConfig"@.len());
    a_field_is_the_first_with_its_name(generation, "audioTranscriptionConfig"@, 1);
    let settings = generation[1].1->Object_0;
    assert("wordTimestamp"@.len() != "customVocabulary"@.len());
    assert("diarization"@.len() != "customVocabulary"@.len());
    a_field_is_the_first_with_its_name(settings, "wordTimestamp"@, 0);
    if words.len() > 0 {
        assert(settings[2].0 == "customVocabulary"@);
        a_field_is_the_first_with_its_name(settings, "customVocabulary"@, 2);
    } else {
        assert(settings.len() == 2);
        a_field_that_is_not_there_is_none(settings, "customVocabulary"@);
    }
    let user = fields[0].1->Array_0[0]->Object_0;
    assert("role"@.len() != "parts"@.len());
    a_field_is_the_first_with_its_name(user, "parts"@, 1);
    let part = user[1].1->Array_0[0]->Object_0;
    a_field_is_the_first_with_its_name(part, "inline_data"@, 0);
    let sound = part[0].1->Object_0;
    assert("mime_type"@.len() != "data"@.len());
    a_field_is_the_first_with_its_name(sound, "mime_type"@, 0);
    a_field_is_the_first_with_its_name(sound, "data"@, 1);
}

/// An interaction request carries every word of the vocabulary, in order, and none
/// where there is none; the mode, if it is smart; the recording, in base64; and the
/// model.
pub proof fn an_interaction_carries_its_words(
    audio: Seq<u8>,
    mime_type: Seq<char>,
    model: Seq<char>,
    mode: TranscriptionMode,
    words: Seq<Seq<char>>,
)
    ensures
        ({
            let request = interaction(audio, mime_type, model, mode, words);
            let body = request.body;
            &&& words.len() > 0 ==> lists(interaction_words(body), words)
            &&& words.len() == 0 ==> interaction_words(body) is None
            &&& deep(body, "generation_config"@, "transcription_config"@, "mode"@) == (
            if mode is Smart {
                Some(JsonView::Text("smart"@))
            } else {
                None
            })
            &&& body.items_at("input"@) matches Some(inputs) && inputs.len() == 1
                && inputs[0].text_at("type"@) == Some("audio"@) && inputs[0].text_at("data"@)
                == Some(base64(audio)) && inputs[0].text_at("mime_type"@) == Some(mime_type)
            &&& body.text_at("model"@) == Some(model)
            &&& request.path == "v1beta/interactions"@
            &&& request.model == model
            &&& !request.model_is_in_path
        }),
{
    reveal_strlit("model");
    reveal_strlit("input");
    reveal_strlit("generation_config");
    reveal_strlit("transcription_config");
    reveal_strlit("custom_vocabulary");
    reveal_strlit("mode");
    reveal_strlit("type");
    reveal_strlit("mime_type");
    reveal_strlit("data");
    let body = interaction(audio, mime_type, model, mode, words).body;
    let fields = body->Object_0;
    assert("model"@[0] != "input"@[0]);
    assert("model"@.len() != "generation_config"@.len());
    assert("input"@.len() != "generation_config"@.len());
    a_field_is_the_first_with_its_name(fields, "model"@, 0);
    a_field_is_the_first_with_its_name(fields, "input"@, 1);
    let sound = fields[1].1->Array_0[0]->Object_0;
    assert("type"@[0] != "data"@[0]);
    assert("type"@.len() != "mime_type"@.len());
    assert("data"@.len() != "mime_type"@.len());
    a_field_is_the_first_with_its_name(sound, "type"@, 0);
    a_field_is_the_first_with_its_name(sound, "mime_type"@, 1);
    a_field_is_the_first_with_its_name(sound, "data"@, 2);
    assert("mode"@.len() != "custom_vocabulary"@.len());
    if mode is Smart || words.len() > 0 {
        assert(fields[2].0 == "generation_config"@);
        a_field_is_the_first_with_its_name(fields, "generation_config"@, 2);
        let generation = fields[2].1->Object_0;
        a_field_is_the_first_with_its_name(generation, "transcription_config"@, 0);
        let config = generation[0].1->Object_0;
        if mode is Smart {
            assert(config[0] == ("mode"@, JsonView::Text("smart"@)));
            a_field_is_the_first_with_its_name(config, "mode"@, 0);
            if words.len() > 0 {
                assert(config[1].0 == "custom_vocabulary"@);
                a_field_is_the_first_with_its_name(config, "custom_vocabulary"@, 1);
            } else {
                a_field_that_is_not_there_is_none(config, "custom_vocabulary"@);
            }
        } else {
            a_field_is_the_first_with_its_name(config, "custom_vocabulary"@, 0);
            a_field_that_is_not_there_is_none(config, "mode"@);
        }
    } else {
        assert(fields.len() == 2);
        a_field_that_is_not_there_is_none(fields, "generation_config"@);
    }
}

/// Vocabularies that differ make requests that differ, at either endpoint.
pub proof fn other_words_make_another_request(
    audio: Seq<u8>,
    mime_type: Seq<char>,
    model: Seq<char>,
    mode: TranscriptionMode,
    a: Seq<Seq<char>>,
    b: Seq<Seq<char>>,
)
    requires
        a != b,
    ensures
        transcription(audio, mime_type, model, a).body != transcription(
            audio,
            mime_type,
            model,
            b,
        ).body,
        interaction(audio, mime_type, model, mode, a).body != interaction(
            audio,
            mime_type,
            model,
            mode,
            b,
        ).body,
{
    a_transcription_carries_its_words(audio, mime_type, model, a);
    a_transcription_carries_its_words(audio, mime_type, model, b);
    an_interaction_carries_its_words(audio, mime_type, model, mode, a);
    an_interaction_carries_its_words(audio, mime_type, model, mode, b);
    let one = transcription(audio, mime_type, model, a).body;
    let other = transcription(audio, mime_type, model, b).body;
    if a.len() > 0 && b.len() > 0 {
        if one == other {
            lemma_same_list(generated_words(one), a, b);
        }
        let one = interaction(audio, mime_type, model, mode, a).body;
        let other = interaction(audio, mime_type, model, mode, b).body;
        if one == other {
            lemma_same_list(interaction_words(one), a, b);
        }
    } else if a.len() == 0 && b.len() == 0 {
        assert(a =~= b);
    }
}

/// A cleanup request asks with the prompt, for as little thinking as the model can
/// be asked for, at the cleanup model's own address.
pub proof fn a_cleanup_asks_with_its_prompt(prompt: Seq<char>, model: Seq<char>)
    ensures
        ({
            let request = cleaning(prompt, model);
            &&& request.body.items_at("contents"@) matches Some(turns) && turns.len() == 1 && (
            turns[0].items_at("parts"@) matches Some(parts) && parts.len() == 1
                && parts[0].text_at("text"@) == Some(prompt))
            &&& request.path == "v1beta/models/"@ + model + ":generateContent"@
            &&& request.model_is_in_path
            &&& request.model == model
            &&& "gemini-2"@.is_prefix_of(model) ==> deep(
                request.body,
                "generationConfig"@,
                "thinkingConfig"@,
                "thinkingBudget"@,
            ) == Some(JsonView::Number("0"@))
            &&& !"gemini-2"@.is_prefix_of(model) ==> deep(
                request.body,
                "generationConfig"@,
                "thinkingConfig"@,
                "thinkingLevel"@,
            ) == Some(JsonView::Text("low"@))
        }),
{
    reveal_strlit("contents");
    reveal_strlit("generationConfig");
    reveal_strlit("temperature");
    reveal_strlit("thinkingConfig");
    reveal_strlit("role");
    reveal_strlit("parts");
    let fields = cleaning(prompt, model).body->Object_0;
    assert("contents"@.len() != "generationConfig"@.len());
    a_field_is_the_first_with_its_name(fields, "contents"@, 0);
    a_field_is_the_first_with_its_name(fields, "generationConfig"@, 1);
    let user = fields[0].1->Array_0[0]->Object_0;
    assert("role"@.len() != "parts"@.len());
    a_field_is_the_first_with_its_name(user, "parts"@, 1);
    a_field_is_the_first_with_its_name(user[1].1->Array_0[0]->Object_0, "text"@, 0);
    let generation = fields[1].1->Object_0;
    assert("temperature"@.len() != "thinkingConfig"@.len());
    a_field_is_the_first_with_its_name(generation, "thinkingConfig"@, 1);
    let sparing = generation[1].1->Object_0;
    a_field_is_the_first_with_its_name(sparing, sparing[0].0, 0);
}

/// The texts of two lists of parts are those of the one and then those of the
/// other; a part without a text has none.
pub proof fn reply_texts_are_joined_in_order(a: Seq<JsonView>, b: Seq<JsonView>, one: JsonView)
    ensures
        part_texts(a + b) == part_texts(a) + part_texts(b),
        part_texts(seq![one]) == (match one.text_at("text"@) {
            Some(text) => text,
            None => Seq::empty(),
        }),
        content_texts(a + b) == content_texts(a) + content_texts(b),
        output_texts(a + b) == output_texts(a) + output_texts(b),
    decreases b.len(),
{
    assert(seq![one].drop_last() =~= Seq::<JsonView>::empty());
    assert(part_texts(Seq::<JsonView>::empty()) =~= Seq::<char>::empty());
    assert(part_texts(seq![one]) =~= (match one.text_at("text"@) {
        Some(text) => text,
        None => Seq::empty(),
    }));
    if b.len() == 0 {
        assert(a + b =~= a);
        assert(part_texts(a) + part_texts(b) =~= part_texts(a));
        assert(content_texts(a) + content_texts(b) =~= content_texts(a));
        assert(output_texts(a) + output_texts(b) =~= output_texts(a));
    } else {
        let rest = b.drop_last();
        reply_texts_are_joined_in_order(a, rest, one);
        assert((a + b).drop_last() =~= a + rest);
        assert((a + b).last() == b.last());
        assert(part_texts(a + b) =~= part_texts(a) + part_texts(b));
        assert(content_texts(a + b) =~= content_texts(a) + content_texts(b));
        assert(output_texts(a + b) =~= output_texts(a) + output_texts(b));
    }
}

/// Of an interaction's steps only the model's output is read, and of that only the
/// texts: what the model thought is never taken for words that were said.
pub proof fn only_the_models_output_is_read(step: JsonView, item: JsonView)
    ensures
        step.text_at("type"@) != Some("model_output"@) ==> output_texts(seq![step]) == Seq::<
            char,
        >::empty(),
        step.text_at("type"@) == Some("model_output"@) && step.items_at("content"@) is Some
            ==> output_texts(seq![step]) == content_texts(step.items_at("content"@)->0),
        item.text_at("type"@) != Some("text"@) ==> content_texts(seq![item]) == Seq::<
            char,
        >::empty(),
        item.text_at("type"@) == Some("text"@) && item.text_at("text"@) is Some ==> content_texts(
            seq![item],
        ) == item.text_at("text"@)->0,
{
    assert(seq![step].drop_last() =~= Seq::<JsonView>::empty());
    assert(seq![item].drop_last() =~= Seq::<JsonView>::empty());
    assert(output_texts(Seq::<JsonView>::empty()) =~= Seq::<char>::empty());
    assert(content_texts(Seq::<JsonView>::empty()) =~= Seq::<char>::empty());
    assert(output_texts(seq![step]) =~= output_texts(Seq::<JsonView>::empty()) + (match step.items_at(
        "content"@,
    ) {
        Some(items) if step.text_at("type"@) == Some("model_output"@) => content_texts(items),
        _ => Seq::empty(),
    }));
    if step.text_at("type"@) == Some("model_output"@) && step.items_at("content"@) is Some {
        assert(output_texts(seq![step]) =~= content_texts(step.items_at("content"@)->0));
    }
    if item.text_at("type"@) == Some("text"@) && item.text_at("text"@) is Some {
        assert(content_texts(seq![item]) =~= item.text_at("text"@)->0);
    } else {
        assert(content_texts(seq![item]) =~= Seq::<char>::empty());
    }
}

/// A `generateContent` reply is blocked where it says so, for the prompt or for
/// the candidate; without a candidate it is a failure to retry; otherwise it is
/// the text of the first candidate.
pub proof fn a_generated_reply_is_its_first_candidate(json: JsonView)
    ensures
        json.within("promptFeedback"@, "blockReason"@) is Some ==> text_reply(json) == Err::<
            Seq<char>,
            ErrorView,
        >(ErrorView::SafetyBlocked),
        json.within("promptFeedback"@, "blockReason"@) is None ==> {
            &&& json.items_at("candidates"@) is None || (json.items_at("candidates"@)->0).len() == 0
                ==> text_reply(json) == Err::<Seq<char>, ErrorView>(
                ErrorView::Network("no_candidates"@),
            )
            &&& json.items_at("candidates"@) is Some && (json.items_at("candidates"@)->0).len() > 0
                ==> {
                let first = (json.items_at("candidates"@)->0)[0];
                &&& first.text_at("finishReason"@) == Some("SAFETY"@) ==> text_reply(json) == Err::<
                    Seq<char>,
                    ErrorView,
                >(ErrorView::SafetyBlocked)
                &&& first.text_at("finishReason"@) != Some("SAFETY"@) ==> {
                    &&& text_reply(json) is Ok
                    &&& first.within("content"@, "parts"@) matches Some(JsonView::Array(parts))
                        ==> text_reply(json)->Ok_0 == part_texts(parts)
                }
            }
        },
{
}

/// An interaction is read only once it is completed, and then as the output of its
/// steps.
pub proof fn only_a_completed_interaction_is_read(json: JsonView)
    ensures
        interaction_reply(json) is Ok ==> json.text_at("status"@) == Some("completed"@),
        json.text_at("status"@) == Some("completed"@) ==> {
            &&& json.items_at("steps"@) matches Some(steps) ==> interaction_reply(json) == Ok::<
                Seq<char>,
                ErrorView,
            >(output_texts(steps))
            &&& json.items_at("steps"@) is None ==> interaction_reply(json) == Err::<
                Seq<char>,
                ErrorView,
            >(ErrorView::Network("no_steps"@))
        },
{
    reveal_strlit("missing");
    reveal_strlit("completed");
    assert("missing"@.len() != "completed"@.len());
}

/// A failed interaction is a safety block where its message says so, in any case,
/// and otherwise a failure to retry.
pub proof fn a_failed_interaction_is_blocked_only_for_safety(json: JsonView, message: Seq<char>)
    requires
        json.text_at("status"@) == Some("failed"@) || json.text_at("status"@) == Some("error"@),
        json.within("error"@, "message"@) == Some(JsonView::Text(message)),
    ensures
        occurs_in("safety"@, lowercase(message)) || occurs_in("blocked"@, lowercase(message))
            ==> interaction_reply(json) == Err::<Seq<char>, ErrorView>(ErrorView::SafetyBlocked),
        !occurs_in("safety"@, lowercase(message)) && !occurs_in("blocked"@, lowercase(message))
            ==> (interaction_reply(json) matches Err(error) && error is Network),
{
    reveal_strlit("completed");
    reveal_strlit("failed");
    reveal_strlit("error");
    assert("completed"@.len() != "failed"@.len());
    assert("completed"@.len() != "error"@.len());
}

/// What each status of the server means for the words: data, a wrong key, a model
/// that is not there, a throttle, a request refused for good, or a failure that is
/// worth another try.
pub proof fn every_status_has_its_meaning(
    status: u16,
    message: Option<Seq<char>>,
    daily: bool,
    model: Seq<char>,
    in_path: bool,
    retried: bool,
    short: bool,
)
    ensures
        ({
            let what = answer(status, message, daily, model, in_path, retried, short);
            &&& what is Data <==> status == 200
            &&& what is Wait <==> status == 429 && short && !retried
            &&& status == 401 ==> what == AnswerView::Failed(ErrorView::Auth)
            &&& (status == 403 || status == 404) && in_path ==> what == AnswerView::Failed(
                ErrorView::ModelUnavailable { model, detail: message },
            )
            &&& (status == 403 || status == 404) && !in_path ==> (what matches AnswerView::Failed(
                error,
            ) && error is Network)
            &&& status == 429 && (retried || !short) && daily ==> what == AnswerView::Failed(
                ErrorView::RateLimitedDaily,
            )
            &&& status == 429 && (retried || !short) && !daily ==> what == AnswerView::Failed(
                ErrorView::RateLimitedTransient,
            )
            &&& status == 400 && message is Some ==> what == AnswerView::Failed(
                ErrorView::BadRequest(message->0),
            )
            &&& status == 400 && message is None ==> what == AnswerView::Failed(
                ErrorView::BadRequest("http_400"@),
            )
            &&& 500 <= status <= 599 ==> what == AnswerView::Failed(
                ErrorView::Network("http_"@ + decimal(status as nat)),
            )
            &&& (what matches AnswerView::Failed(error) && !(error is Auth) && !(error
                is ModelUnavailable) && !(error is RateLimitedDaily) && !(error
                is RateLimitedTransient) && !(error is BadRequest)) ==> (
            what matches AnswerView::Failed(error) && error is Network)
        }),
{
}

/// A key is good exactly if the server says so, and bad only if the server
/// answered: no answer, or a server that is down, is not the key's fault.
pub proof fn a_key_is_rejected_only_by_an_answer(status: u16, message: Option<Seq<char>>)
    ensures
        key_verdict(None, message) is Unreachable,
        key_verdict(Some(status), message) is Valid <==> status == 200,
        key_verdict(Some(status), message) is Unreachable <==> 500 <= status <= 599,
        status != 200 && !(500 <= status <= 599) ==> key_verdict(Some(status), message)
            == KeyCheckView::Rejected(message),
{
}

/// No answer at all is a timeout, no connection, or a broken one: each is an error
/// that leaves the words queued.
pub proof fn silence_is_never_a_refusal(silence: Silence, error: TranscriptionError)
    requires
        call_ensures(no_answer, (silence,), error),
    ensures
        silence is TimedOut ==> error is Timeout,
        silence is Unconnected ==> error is Offline,
        silence matches Silence::Broken(detail) ==> (error matches TranscriptionError::Network(said)
            && said@ == detail@),
{
    assert(error@ is Timeout ==> error is Timeout);
    assert(error@ is Offline ==> error is Offline);
    assert(error@ is Network ==> error is Network);
}

/// A model is there exactly on a status of success.
pub proof fn a_model_is_reached_by_success(status: u16)
    ensures
        !reachable(None),
        reachable(Some(status)) <==> status / 100 == 2,
{
}

/// A delay is waited out if it is eight seconds or shorter.
pub proof fn only_a_short_delay_is_waited_out(delay: Seconds)
    ensures
        !short(None),
        short(Some(delay)) <==> delay.key <= 0x4020_0000_0000_0000,
{
}

/// The message of an error is the same in an array as outside one.
pub proof fn an_error_is_read_in_either_envelope(
    fields: Seq<(Seq<char>, JsonView)>,
    rest: Seq<JsonView>,
)
    ensures
        message_in(JsonView::Object(fields)) == message_in(
            JsonView::Array(seq![JsonView::Object(fields)] + rest),
        ),
        JsonView::Object(fields).within("error"@, "message"@) matches Some(JsonView::Text(words))
            ==> message_in(JsonView::Object(fields)) == Some(words),
        message_in(JsonView::Array(Seq::empty())) is None,
{
    assert((seq![JsonView::Object(fields)] + rest)[0] == JsonView::Object(fields));
}

/// A reply is read by the form of the endpoint that was asked.
pub proof fn a_reply_is_read_in_its_own_form(
    to: Addressee,
    data: &[u8],
    text: Result<String, TranscriptionError>,
)
    requires
        call_ensures(read_reply, (&to, data), text),
        parsed(data@) is Some,
    ensures
        to.model_is_in_path ==> outcome(text) == text_reply(parsed(data@)->0),
        !to.model_is_in_path ==> outcome(text) == interaction_reply(parsed(data@)->0),
{
}

/// The header's delay wins over the body's.
pub proof fn the_header_says_when_to_come_back(
    data: &[u8],
    header: Option<Seconds>,
    hint: RetryHint,
)
    requires
        call_ensures(retry_delay_seconds, (data, header), hint),
    ensures
        header matches Some(seconds) ==> hint == RetryHint::Given(seconds),
        header is None ==> !(hint is Given),
{
    if header is Some {
        assert(hint@ is Given ==> hint is Given);
    } else {
        assert(hint is Given ==> hint@ is Given);
    }
}

/// Requests go to the endpoint that is configured, and nothing of the key is in
/// the address.
pub proof fn addresses_begin_with_the_endpoint(
    endpoint: &str,
    path: &str,
    model: &str,
    request: String,
    check: String,
    lookup: String,
)
    requires
        call_ensures(url, (endpoint, path), request),
        call_ensures(key_check_url, (endpoint,), check),
        call_ensures(model_url, (endpoint, model), lookup),
    ensures
        request@ == endpoint@ + "/"@ + path@,
        check@ == endpoint@ + "/"@ + "v1beta/models?pageSize=1"@,
        lookup@ == endpoint@ + "/"@ + ("v1beta/models/"@ + model@),
{
}

} // verus!
