//! A queryable index over the session folders.
//!
//! The folders remain the source of truth, one record per dictation. The index
//! only makes History quick to search and stats cheap, so a corrupt index is a
//! rebuild rather than a data loss.

use vstd::prelude::*;

use crate::clock::Duration;
use crate::ids::{hyphenated, hyphenated_text};
use crate::meta::{MetaView, SessionMeta, SessionStatus};
use crate::rank::{arranged, ints, order_of, ordered, picked};
use crate::text::{
    ascii_lowered,
    chars_of,
    has_part,
    holds_text,
    lowered_ascii,
    occurs_in,
    opt_text,
    same_text,
    texts,
    trim,
    trimmed,
    words,
    words_of,
};

verus! {

/// Cancelled recordings at least this many nanoseconds long are shown.
pub const VISIBLE_CANCEL: u128 = 10_000_000_000;

/// One row of the index.
#[derive(Debug)]
pub struct DictationRecord {
    pub id: String,
    pub folder: String,
    /// Whole seconds since the Unix epoch.
    pub started_at: i128,
    pub status: String,
    pub target_app_name: Option<String>,
    pub target_app_exe: Option<String>,
    pub duration: Option<Duration>,
    pub raw_transcript: Option<String>,
    pub cleaned_transcript: Option<String>,
    pub error_code: Option<String>,
    pub error_message: Option<String>,
    pub pipeline_time: Option<Duration>,
}

pub struct RecordView {
    pub id: Seq<char>,
    pub folder: Seq<char>,
    pub started_at: int,
    pub status: Seq<char>,
    pub target_app_name: Option<Seq<char>>,
    pub target_app_exe: Option<Seq<char>>,
    pub duration: Option<Duration>,
    pub raw_transcript: Option<Seq<char>>,
    pub cleaned_transcript: Option<Seq<char>>,
    pub error_code: Option<Seq<char>>,
    pub error_message: Option<Seq<char>>,
    pub pipeline_time: Option<Duration>,
}

impl View for DictationRecord {
    type V = RecordView;

    open spec fn view(&self) -> RecordView {
        RecordView {
            id: self.id@,
            folder: self.folder@,
            started_at: self.started_at as int,
            status: self.status@,
            target_app_name: opt_text(self.target_app_name),
            target_app_exe: opt_text(self.target_app_exe),
            duration: self.duration,
            raw_transcript: opt_text(self.raw_transcript),
            cleaned_transcript: opt_text(self.cleaned_transcript),
            error_code: opt_text(self.error_code),
            error_message: opt_text(self.error_message),
            pipeline_time: self.pipeline_time,
        }
    }
}

/// Whether a text that may be absent holds `query`, ignoring ASCII case.
pub open spec fn mentions(text: Option<Seq<char>>, query: Seq<char>) -> bool {
    text matches Some(text) && occurs_in(ascii_lowered(query), ascii_lowered(text))
}

impl RecordView {
    /// The row of a session's record.
    pub open spec fn of(meta: MetaView, folder: Seq<char>) -> RecordView {
        RecordView {
            id: hyphenated_text(meta.id),
            folder,
            started_at: meta.started_at / 1_000_000_000,
            status: meta.status.label(),
            target_app_name: meta.target_app_name,
            target_app_exe: meta.target_app_exe,
            duration: meta.audio_duration,
            raw_transcript: meta.raw_transcript,
            cleaned_transcript: meta.cleaned_transcript,
            error_code: meta.error_code,
            error_message: meta.error_message,
            pipeline_time: meta.pipeline_time,
        }
    }

    pub open spec fn is_status(self, status: SessionStatus) -> bool {
        self.status == status.label()
    }

    /// A session that is not over.
    pub open spec fn in_flight(self) -> bool {
        ||| self.is_status(SessionStatus::Recording)
        ||| self.is_status(SessionStatus::Recorded)
        ||| self.is_status(SessionStatus::Transcribing)
    }

    /// History is a library of words plus things needing attention, never an
    /// event log. Shown: anything with a transcript, retryable failures and
    /// queued items, long cancelled recordings. Silent rows are not, nor are
    /// sessions in flight: they would surface with controls that double-upload
    /// or destroy them.
    pub open spec fn visible(self) -> bool {
        &&& self.raw_transcript is Some || self.cleaned_transcript is Some || self.is_status(
            SessionStatus::Failed,
        ) || self.is_status(SessionStatus::QueuedForRetry) || (self.is_status(
            SessionStatus::Cancelled,
        ) && (self.duration matches Some(d) && d.nanos >= VISIBLE_CANCEL))
        &&& !self.is_status(SessionStatus::Silent)
        &&& !self.in_flight()
    }

    /// Whether a search finds the row.
    pub open spec fn found_by(self, query: Seq<char>) -> bool {
        ||| mentions(self.raw_transcript, query)
        ||| mentions(self.cleaned_transcript, query)
        ||| mentions(self.target_app_name, query)
    }

    /// An error that a retry could plausibly clear.
    pub open spec fn transient(self) -> bool {
        self.error_code matches Some(code) && (code == "network"@ || code == "timeout"@ || code
            == "rate_limit"@)
    }

    /// What the retry queue should drain. A daily quota or an auth wall is
    /// deliberately absent: those are account-level and must not be re-sent on a
    /// loop.
    pub open spec fn retryable(self) -> bool {
        ||| self.is_status(SessionStatus::QueuedForRetry)
        ||| self.is_status(SessionStatus::Failed) && self.transient()
    }

    /// The words to show.
    pub open spec fn display(self) -> Seq<char> {
        match self.cleaned_transcript {
            Some(text) => text,
            None => match self.raw_transcript {
                Some(text) => text,
                None => Seq::empty(),
            },
        }
    }
}

impl Clone for DictationRecord {
    fn clone(&self) -> (copy: Self)
        ensures
            copy@ == self@,
    {
        DictationRecord {
            id: self.id.clone(),
            folder: self.folder.clone(),
            started_at: self.started_at,
            status: self.status.clone(),
            target_app_name: self.target_app_name.clone(),
            target_app_exe: self.target_app_exe.clone(),
            duration: self.duration,
            raw_transcript: self.raw_transcript.clone(),
            cleaned_transcript: self.cleaned_transcript.clone(),
            error_code: self.error_code.clone(),
            error_message: self.error_message.clone(),
            pipeline_time: self.pipeline_time,
        }
    }
}

/// Whole seconds of an instant, rounded down.
fn whole_seconds(nanos: i128) -> (secs: i128)
    ensures
        secs == nanos as int / 1_000_000_000,
{
    if nanos >= 0 {
        nanos / 1_000_000_000
    } else {
        -1 - (-1 - nanos) / 1_000_000_000
    }
}

fn mentions_text(text: &Option<String>, lowered_query: &[char]) -> (yes: bool)
    ensures
        yes == (opt_text(*text) matches Some(t) && occurs_in(lowered_query@, ascii_lowered(t))),
{
    match text {
        Some(text) => {
            let lowered = lowered_ascii(&chars_of(text.as_str()));
            has_part(&lowered, lowered_query)
        },
        None => false,
    }
}

impl DictationRecord {
    pub fn from_meta(meta: &SessionMeta, folder: &str) -> (record: Self)
        ensures
            record@ == RecordView::of(meta@, folder@),
    {
        DictationRecord {
            id: hyphenated(meta.id),
            folder: folder.to_owned(),
            started_at: whole_seconds(meta.started_at),
            status: meta.status.as_str().to_owned(),
            target_app_name: meta.target_app_name.clone(),
            target_app_exe: meta.target_app_exe.clone(),
            duration: meta.audio_duration,
            raw_transcript: meta.raw_transcript.clone(),
            cleaned_transcript: meta.cleaned_transcript.clone(),
            error_code: meta.error_code.clone(),
            error_message: meta.error_message.clone(),
            pipeline_time: meta.pipeline_time,
        }
    }

    pub fn display_text(&self) -> (text: String)
        ensures
            text@ == self@.display(),
    {
        match &self.cleaned_transcript {
            Some(text) => text.clone(),
            None => match &self.raw_transcript {
                Some(text) => text.clone(),
                None => String::new(),
            },
        }
    }

    pub fn status(&self) -> (status: Option<SessionStatus>)
        ensures
            match status {
                Some(status) => self@.is_status(status),
                None => forall|status: SessionStatus| !self@.is_status(status),
            },
    {
        SessionStatus::parse(self.status.as_str())
    }

    fn has_status(&self, status: SessionStatus) -> (yes: bool)
        ensures
            yes == self@.is_status(status),
    {
        same_text(self.status.as_str(), status.as_str())
    }

    pub fn is_visible(&self) -> (yes: bool)
        ensures
            yes == self@.visible(),
    {
        let long = match self.duration {
            Some(d) => d.nanos >= VISIBLE_CANCEL,
            None => false,
        };
        (self.raw_transcript.is_some() || self.cleaned_transcript.is_some() || self.has_status(
            SessionStatus::Failed,
        ) || self.has_status(SessionStatus::QueuedForRetry) || (self.has_status(
            SessionStatus::Cancelled,
        ) && long)) && !self.has_status(SessionStatus::Silent) && !self.is_in_flight()
    }

    fn is_in_flight(&self) -> (yes: bool)
        ensures
            yes == self@.in_flight(),
    {
        self.has_status(SessionStatus::Recording) || self.has_status(SessionStatus::Recorded)
            || self.has_status(SessionStatus::Transcribing)
    }

    pub fn is_retryable(&self) -> (yes: bool)
        ensures
            yes == self@.retryable(),
    {
        let transient = match &self.error_code {
            Some(code) => {
                let code = code.as_str();
                same_text(code, "network") || same_text(code, "timeout") || same_text(
                    code,
                    "rate_limit",
                )
            },
            None => false,
        };
        self.has_status(SessionStatus::QueuedForRetry) || (self.has_status(SessionStatus::Failed)
            && transient)
    }

    fn is_found_by(&self, lowered_query: &[char], Ghost(query): Ghost<Seq<char>>) -> (yes: bool)
        requires
            lowered_query@ == ascii_lowered(query),
        ensures
            yes == self@.found_by(query),
    {
        mentions_text(&self.raw_transcript, lowered_query) || mentions_text(
            &self.cleaned_transcript,
            lowered_query,
        ) || mentions_text(&self.target_app_name, lowered_query)
    }
}

/// What History adds up to.
#[derive(Debug, Clone, Copy, PartialEq, Eq, Structural)]
pub struct Stats {
    pub total_words: usize,
    pub total_dictations: usize,
    pub average_wpm: u32,
}

/// The rows of a list.
pub open spec fn rows_of(list: Seq<DictationRecord>) -> Seq<RecordView> {
    list.map_values(|r: DictationRecord| r@)
}

/// No two rows have the same id.
pub open spec fn distinct_ids(rows: Seq<RecordView>) -> bool {
    forall|i: int, j: int|
        0 <= i < j < rows.len() ==> (#[trigger] rows[i]).id != (#[trigger] rows[j]).id
}

/// Whether `id` has a row.
pub open spec fn holds(rows: Seq<RecordView>, id: Seq<char>) -> bool {
    exists|i: int| 0 <= i < rows.len() && (#[trigger] rows[i]).id == id
}

/// Where the row of `id` stands.
pub open spec fn row_at(rows: Seq<RecordView>, id: Seq<char>) -> int {
    choose|i: int| 0 <= i < rows.len() && (#[trigger] rows[i]).id == id
}

/// The rows with `row` in place of the one that had its id, or added.
pub open spec fn upserted(rows: Seq<RecordView>, row: RecordView) -> Seq<RecordView> {
    if holds(rows, row.id) {
        rows.update(row_at(rows, row.id), row)
    } else {
        rows.push(row)
    }
}

/// The rows without the one of `id`.
pub open spec fn removed(rows: Seq<RecordView>, id: Seq<char>) -> Seq<RecordView> {
    if holds(rows, id) {
        rows.remove(row_at(rows, id))
    } else {
        rows
    }
}

/// The start times of the rows.
pub open spec fn start_times(rows: Seq<RecordView>) -> Seq<int> {
    rows.map_values(|r: RecordView| r.started_at)
}

/// The rows from the oldest to the newest; of two that started in the same
/// second, the one added first.
pub open spec fn oldest_first(rows: Seq<RecordView>) -> Seq<RecordView> {
    arranged(rows, ordered(start_times(rows)))
}

/// The rows from the newest to the oldest.
pub open spec fn newest_first(rows: Seq<RecordView>) -> Seq<RecordView> {
    oldest_first(rows).reverse()
}

/// The first `limit` things, or all.
pub open spec fn at_most<T>(things: Seq<T>, limit: int) -> Seq<T> {
    if things.len() <= limit {
        things
    } else {
        things.take(limit)
    }
}

/// A search that is only white space is no search.
pub open spec fn query_of(search: Option<Seq<char>>) -> Option<Seq<char>> {
    match search {
        Some(search) => if trim(search).len() == 0 {
            None
        } else {
            Some(trim(search))
        },
        None => None,
    }
}

/// Whether a row is listed under a search.
pub open spec fn listed(row: RecordView, query: Option<Seq<char>>) -> bool {
    row.visible() && (query matches Some(query) ==> row.found_by(query))
}

/// What History shows.
pub open spec fn shown(
    rows: Seq<RecordView>,
    search: Option<Seq<char>>,
    limit: int,
) -> Seq<RecordView> {
    at_most(picked(newest_first(rows), |r: RecordView| listed(r, query_of(search))), limit)
}

/// What waits to be sent again, oldest first.
pub open spec fn retry_queue(rows: Seq<RecordView>) -> Seq<RecordView> {
    picked(oldest_first(rows), |r: RecordView| r.retryable())
}

/// What was cut off mid-flight, newest first.
pub open spec fn interrupted(rows: Seq<RecordView>) -> Seq<RecordView> {
    picked(newest_first(rows), |r: RecordView| r.in_flight())
}

/// The words of a row's cleaned transcript.
pub open spec fn row_words(row: RecordView) -> nat {
    match row.cleaned_transcript {
        Some(text) => words(text).len(),
        None => 0,
    }
}

/// The row was timed: it has a duration to speak of.
pub open spec fn timed(row: RecordView) -> bool {
    row.cleaned_transcript is Some && (row.duration matches Some(d) && d.nanos > 0)
}

pub open spec fn total_words(rows: Seq<RecordView>) -> nat
    decreases rows.len(),
{
    if rows.len() == 0 {
        0
    } else {
        total_words(rows.drop_last()) + row_words(rows.last())
    }
}

pub open spec fn timed_words(rows: Seq<RecordView>) -> nat
    decreases rows.len(),
{
    if rows.len() == 0 {
        0
    } else {
        timed_words(rows.drop_last()) + (if timed(rows.last()) {
            row_words(rows.last())
        } else {
            0
        })
    }
}

/// Nanoseconds spoken in the timed rows.
pub open spec fn timed_speech(rows: Seq<RecordView>) -> nat
    decreases rows.len(),
{
    if rows.len() == 0 {
        0
    } else {
        timed_speech(rows.drop_last()) + (if timed(rows.last()) {
            (rows.last().duration->0).nanos as nat
        } else {
            0
        })
    }
}

pub open spec fn transcribed_rows(rows: Seq<RecordView>) -> nat
    decreases rows.len(),
{
    if rows.len() == 0 {
        0
    } else {
        transcribed_rows(rows.drop_last()) + (if rows.last().cleaned_transcript is Some {
            1nat
        } else {
            0nat
        })
    }
}

pub open spec fn capped(n: nat, limit: nat) -> nat {
    if n <= limit {
        n
    } else {
        limit
    }
}

/// Words per minute over the timed rows, once there are more than ten seconds
/// of them.
pub open spec fn words_per_minute(rows: Seq<RecordView>) -> nat {
    let speech = capped(timed_speech(rows), u128::MAX as nat);
    let words = capped(timed_words(rows), usize::MAX as nat);
    if speech > 10_000_000_000 {
        capped(words * 60_000_000_000 / speech, u32::MAX as nat)
    } else {
        0
    }
}

/// The index.
#[derive(Debug)]
pub struct HistoryStore {
    pub rows: Vec<DictationRecord>,
}

impl View for HistoryStore {
    type V = Seq<RecordView>;

    open spec fn view(&self) -> Seq<RecordView> {
        rows_of(self.rows@)
    }
}

/// Sessions with their folders.
pub open spec fn sessions(found: Seq<(SessionMeta, String)>) -> Seq<(MetaView, Seq<char>)> {
    found.map_values(|p: (SessionMeta, String)| (p.0@, p.1@))
}

/// The rows with sessions added one after the other.
pub open spec fn indexed(rows: Seq<RecordView>, found: Seq<(MetaView, Seq<char>)>) -> Seq<
    RecordView,
>
    decreases found.len(),
{
    if found.len() == 0 {
        rows
    } else {
        upserted(
            indexed(rows, found.drop_last()),
            RecordView::of(found.last().0, found.last().1),
        )
    }
}

/// Of each row, whether its folder is listed.
pub open spec fn in_folders(rows: Seq<RecordView>, folders: Seq<Seq<char>>) -> Seq<bool> {
    rows.map_values(|r: RecordView| folders.contains(r.folder))
}

/// Of every folder there is, those that deleting everything removes: all but the
/// one of the live session. The folders are swept rather than the rows, because
/// the rows that are shown leave out cancelled sessions whose audio would survive.
pub fn swept(folders: &Vec<String>, sparing: Option<&str>) -> (gone: Vec<String>)
    ensures
        texts(gone@) == picked(
            texts(folders@),
            |f: Seq<char>| !(sparing matches Some(spared) && spared@ == f),
        ),
{
    let ghost goes = |f: Seq<char>| !(sparing matches Some(spared) && spared@ == f);
    let ghost all = texts(folders@);
    let mut gone: Vec<String> = Vec::new();
    let mut i: usize = 0;
    assert(all.take(0) =~= Seq::<Seq<char>>::empty());
    assert(texts(gone@) =~= Seq::<Seq<char>>::empty());
    while i < folders.len()
        invariant
            i <= folders@.len(),
            all == texts(folders@),
            goes == (|f: Seq<char>| !(sparing matches Some(spared) && spared@ == f)),
            texts(gone@) == picked(all.take(i as int), goes),
        decreases folders@.len() - i,
    {
        let ghost before = gone@;
        proof {
            assert(all.take(i + 1).drop_last() =~= all.take(i as int));
            assert(all.take(i + 1).last() == folders@[i as int]@);
        }
        let spared = match sparing {
            Some(spared) => same_text(spared, folders[i].as_str()),
            None => false,
        };
        if !spared {
            gone.push(folders[i].clone());
            assert(texts(gone@) =~= texts(before).push(folders@[i as int]@));
        }
        i += 1;
    }
    assert(all.take(i as int) =~= all);
    gone
}

fn copies(list: &Vec<DictationRecord>, order: &Vec<usize>) -> (out: Vec<DictationRecord>)
    requires
        forall|i: int| 0 <= i < order@.len() ==> (#[trigger] order@[i]) < list@.len(),
    ensures
        rows_of(out@) == arranged(rows_of(list@), ints(order@)),
{
    let mut out: Vec<DictationRecord> = Vec::new();
    let mut i: usize = 0;
    while i < order.len()
        invariant
            i <= order@.len(),
            out@.len() == i,
            forall|k: int| 0 <= k < order@.len() ==> (#[trigger] order@[k]) < list@.len(),
            forall|k: int| 0 <= k < i ==> (#[trigger] out@[k])@ == list@[order@[k] as int]@,
        decreases order@.len() - i,
    {
        out.push(list[order[i]].clone());
        i += 1;
    }
    assert(rows_of(out@) =~= arranged(rows_of(list@), ints(order@)));
    out
}

impl HistoryStore {
    pub fn new() -> (store: Self)
        ensures
            store@ == Seq::<RecordView>::empty(),
            distinct_ids(store@),
    {
        let store = HistoryStore { rows: Vec::new() };
        assert(store@ =~= Seq::<RecordView>::empty());
        store
    }

    fn find(&self, id: &str) -> (at: Option<usize>)
        ensures
            match at {
                Some(at) => at < self@.len() && self@[at as int].id == id@,
                None => !holds(self@, id@),
            },
    {
        let mut i: usize = 0;
        while i < self.rows.len()
            invariant
                i <= self.rows@.len(),
                forall|k: int| 0 <= k < i ==> (#[trigger] self@[k]).id != id@,
            decreases self.rows@.len() - i,
        {
            if same_text(self.rows[i].id.as_str(), id) {
                assert(self@[i as int].id == id@);
                return Some(i);
            }
            assert(self@[i as int].id != id@);
            i += 1;
        }
        None
    }

    /// Adds a row, or replaces the one with its id.
    pub fn put(&mut self, record: DictationRecord)
        requires
            distinct_ids(old(self)@),
        ensures
            final(self)@ == upserted(old(self)@, record@),
            distinct_ids(final(self)@),
    {
        let ghost before = self@;
        let ghost row = record@;
        match self.find(record.id.as_str()) {
            Some(at) => {
                proof {
                    assert(holds(before, row.id));
                    let there = row_at(before, row.id);
                    if there < at {
                        assert(before[there].id != before[at as int].id);
                    } else if at < there {
                        assert(before[at as int].id != before[there].id);
                    }
                }
                self.rows.set(at, record);
                assert(self@ =~= before.update(at as int, row));
            },
            None => {
                self.rows.push(record);
                assert(self@ =~= before.push(row));
            },
        }
        proof {
            upserting_keeps_ids_distinct(before, row);
        }
    }

    pub fn upsert(&mut self, meta: &SessionMeta, folder: &str)
        requires
            distinct_ids(old(self)@),
        ensures
            final(self)@ == upserted(old(self)@, RecordView::of(meta@, folder@)),
            distinct_ids(final(self)@),
    {
        self.put(DictationRecord::from_meta(meta, folder));
    }

    pub fn record(&self, id: &str) -> (record: Option<DictationRecord>)
        ensures
            match record {
                Some(record) => self@.contains(record@) && record@.id == id@,
                None => !holds(self@, id@),
            },
    {
        match self.find(id) {
            Some(at) => {
                let record = self.rows[at].clone();
                assert(self@[at as int] == record@);
                Some(record)
            },
            None => None,
        }
    }

    /// Drops the row of `id` and gives back the folder it spoke of.
    pub fn delete(&mut self, id: &str) -> (folder: Option<String>)
        requires
            distinct_ids(old(self)@),
        ensures
            final(self)@ == removed(old(self)@, id@),
            distinct_ids(final(self)@),
            match folder {
                Some(folder) => holds(old(self)@, id@) && folder@ == old(self)@[row_at(
                    old(self)@,
                    id@,
                )].folder,
                None => !holds(old(self)@, id@),
            },
    {
        let ghost before = self@;
        match self.find(id) {
            Some(at) => {
                proof {
                    assert(holds(before, id@));
                    let there = row_at(before, id@);
                    if there < at {
                        assert(before[there].id != before[at as int].id);
                    } else if at < there {
                        assert(before[at as int].id != before[there].id);
                    }
                }
                let gone = self.rows.remove(at);
                assert(self@ =~= before.remove(at as int));
                proof {
                    removing_keeps_ids_distinct(before, at as int);
                }
                Some(gone.folder)
            },
            None => None,
        }
    }

    pub fn delete_all(&mut self)
        ensures
            final(self)@ == Seq::<RecordView>::empty(),
            distinct_ids(final(self)@),
    {
        self.rows = Vec::new();
        assert(self@ =~= Seq::<RecordView>::empty());
    }

    /// Drops every row whose folder is gone; `present` says of each row whether
    /// its folder is there. The whole table is walked: rows that History hides
    /// would otherwise linger forever as invisible ghosts.
    pub fn prune(&mut self, present: &Vec<bool>) -> (pruned: usize)
        requires
            distinct_ids(old(self)@),
            present@.len() == old(self)@.len(),
        ensures
            final(self)@ == kept(old(self)@, present@),
            distinct_ids(final(self)@),
            pruned == old(self)@.len() - final(self)@.len(),
    {
        let ghost before = self@;
        let mut rows: Vec<DictationRecord> = Vec::new();
        let mut i: usize = 0;
        let n: usize = self.rows.len();
        assert(before.take(0) =~= Seq::<RecordView>::empty());
        assert(rows_of(rows@) =~= Seq::<RecordView>::empty());
        while i < n
            invariant
                i <= n,
                n == self.rows@.len(),
                before == self@,
                before.len() == n,
                present@.len() == n,
                rows_of(rows@) == kept(before.take(i as int), present@.take(i as int)),
                rows@.len() <= i,
            decreases n - i,
        {
            let ghost listed = rows@;
            proof {
                assert(before.take(i + 1).drop_last() =~= before.take(i as int));
                assert(present@.take(i + 1).drop_last() =~= present@.take(i as int));
                assert(before.take(i + 1).last() == before[i as int]);
                assert(present@.take(i + 1).last() == present@[i as int]);
            }
            if present[i] {
                let row = self.rows[i].clone();
                let ghost view = row@;
                rows.push(row);
                assert(rows_of(rows@) =~= rows_of(listed).push(view));
            }
            i += 1;
        }
        assert(before.take(n as int) =~= before);
        assert(present@.take(n as int) =~= present@);
        let pruned: usize = n - rows.len();
        self.rows = rows;
        proof {
            lemma_kept_ids(before, present@);
        }
        pruned
    }

    /// The folders that the rows speak of.
    pub fn folders(&self) -> (list: Vec<String>)
        ensures
            texts(list@) == self@.map_values(|r: RecordView| r.folder),
    {
        let mut list: Vec<String> = Vec::new();
        let mut i: usize = 0;
        while i < self.rows.len()
            invariant
                i <= self.rows@.len(),
                list@.len() == i,
                forall|k: int| 0 <= k < i ==> (#[trigger] list@[k])@ == self.rows@[k]@.folder,
            decreases self.rows@.len() - i,
        {
            list.push(self.rows[i].folder.clone());
            i += 1;
        }
        assert(texts(list@) =~= self@.map_values(|r: RecordView| r.folder));
        list
    }

    /// Rebuilds the index at launch. Folders are the source of truth: every
    /// session that was `found` is indexed, and a row whose folder is not among
    /// those `existing` is dropped rather than shown as a ghost.
    pub fn reindex(&mut self, found: &Vec<(SessionMeta, String)>, existing: &Vec<String>) -> (
    pruned: usize)
        requires
            distinct_ids(old(self)@),
        ensures
            ({
                let all = indexed(old(self)@, sessions(found@));
                &&& final(self)@ == kept(all, in_folders(all, texts(existing@)))
                &&& pruned == all.len() - final(self)@.len()
            }),
            distinct_ids(final(self)@),
    {
        let ghost list = sessions(found@);
        let ghost before = self@;
        let mut i: usize = 0;
        assert(list.take(0) =~= Seq::<(MetaView, Seq<char>)>::empty());
        while i < found.len()
            invariant
                i <= found@.len(),
                list == sessions(found@),
                distinct_ids(self@),
                self@ == indexed(before, list.take(i as int)),
            decreases found@.len() - i,
        {
            proof {
                assert(list.take(i + 1).drop_last() =~= list.take(i as int));
                assert(list.take(i + 1).last() == (found@[i as int].0@, found@[i as int].1@));
            }
            self.upsert(&found[i].0, found[i].1.as_str());
            i += 1;
        }
        assert(list.take(i as int) =~= list);
        let ghost all = self@;
        let mut present: Vec<bool> = Vec::new();
        let mut k: usize = 0;
        while k < self.rows.len()
            invariant
                k <= self.rows@.len(),
                self@ == all,
                present@.len() == k,
                forall|j: int|
                    0 <= j < k ==> #[trigger] present@[j] == texts(existing@).contains(
                        all[j].folder,
                    ),
            decreases self.rows@.len() - k,
        {
            present.push(holds_text(existing, self.rows[k].folder.as_str()));
            k += 1;
        }
        assert(present@ =~= in_folders(all, texts(existing@)));
        self.prune(&present)
    }

    fn in_order(&self) -> (list: Vec<DictationRecord>)
        ensures
            rows_of(list@) == oldest_first(self@),
    {
        let mut keys: Vec<i128> = Vec::new();
        let mut i: usize = 0;
        while i < self.rows.len()
            invariant
                i <= self.rows@.len(),
                keys@.len() == i,
                forall|k: int| 0 <= k < i ==> #[trigger] keys@[k] == self.rows@[k].started_at,
            decreases self.rows@.len() - i,
        {
            keys.push(self.rows[i].started_at);
            i += 1;
        }
        assert(keys@.map_values(|k: i128| k as int) =~= start_times(self@));
        let order = order_of(&keys);
        proof {
            let o = ints(order@);
            assert forall|i: int| 0 <= i < order@.len() implies (#[trigger] order@[i])
                < self.rows@.len() by {
                assert(o[i] == order@[i] as int);
            }
        }
        copies(&self.rows, &order)
    }

    /// What History shows, newest first: everything, or what a search finds.
    pub fn records(&self, search: Option<&str>, limit: usize) -> (list: Vec<DictationRecord>)
        ensures
            rows_of(list@) == shown(
                self@,
                (match search {
                    Some(search) => Some(search@),
                    None => None,
                }),
                limit as int,
            ),
    {
        let ghost asked = match search {
            Some(search) => Some(search@),
            None => None,
        };
        let query: Option<Vec<char>> = match search {
            Some(search) => {
                let query = trimmed(&chars_of(search));
                if query.len() == 0 {
                    None
                } else {
                    Some(query)
                }
            },
            None => None,
        };
        let ghost q = query_of(asked);
        let lowered: Vec<char> = match &query {
            Some(query) => lowered_ascii(query),
            None => Vec::new(),
        };
        let all = self.in_order();
        let ghost passes = |r: RecordView| listed(r, q);
        let ghost rev = newest_first(self@);
        let mut list: Vec<DictationRecord> = Vec::new();
        let mut left: usize = all.len();
        assert(rev.take(0) =~= Seq::<RecordView>::empty());
        assert(rows_of(list@) =~= Seq::<RecordView>::empty());
        while left > 0
            invariant
                left <= all@.len(),
                rev == rows_of(all@).reverse(),
                rev.len() == all@.len(),
                passes == (|r: RecordView| listed(r, q)),
                q == (match query {
                    Some(query) => Some(query@),
                    None => None,
                }),
                query matches Some(query) ==> lowered@ == ascii_lowered(query@),
                rows_of(list@) == picked(rev.take(all@.len() - left), passes),
            decreases left,
        {
            let at: usize = left - 1;
            let ghost done = all@.len() - left;
            let found = match &query {
                Some(query) => all[at].is_found_by(&lowered, Ghost(query@)),
                None => true,
            };
            let ghost row = all@[at as int]@;
            proof {
                assert(rev[done] == row);
                assert(rev.take(done + 1).drop_last() =~= rev.take(done));
                assert(rev.take(done + 1).last() == row);
            }
            if found && all[at].is_visible() {
                let ghost before = list@;
                list.push(all[at].clone());
                assert(rows_of(list@) =~= rows_of(before).push(row));
            }
            left = at;
        }
        assert(rev.take(all@.len() as int) =~= rev);
        let ghost full = list@;
        if list.len() > limit {
            list.truncate(limit);
            assert(rows_of(list@) =~= rows_of(full).take(limit as int));
        }
        list
    }

    /// Sessions the retry queue should drain, oldest first.
    pub fn retryable_records(&self) -> (list: Vec<DictationRecord>)
        ensures
            rows_of(list@) == retry_queue(self@),
    {
        let all = self.in_order();
        let ghost passes = |r: RecordView| r.retryable();
        let ghost rows = oldest_first(self@);
        let mut list: Vec<DictationRecord> = Vec::new();
        let mut i: usize = 0;
        assert(rows.take(0) =~= Seq::<RecordView>::empty());
        assert(rows_of(list@) =~= Seq::<RecordView>::empty());
        while i < all.len()
            invariant
                i <= all@.len(),
                rows == rows_of(all@),
                passes == (|r: RecordView| r.retryable()),
                rows_of(list@) == picked(rows.take(i as int), passes),
            decreases all@.len() - i,
        {
            let ghost row = all@[i as int]@;
            proof {
                assert(rows[i as int] == row);
                assert(rows.take(i + 1).drop_last() =~= rows.take(i as int));
                assert(rows.take(i + 1).last() == row);
            }
            if all[i].is_retryable() {
                let ghost before = list@;
                list.push(all[i].clone());
                assert(rows_of(list@) =~= rows_of(before).push(row));
            }
            i += 1;
        }
        assert(rows.take(all@.len() as int) =~= rows);
        list
    }

    /// Sessions found unfinished at launch, newest first: the program died
    /// mid-flight.
    pub fn interrupted_records(&self) -> (list: Vec<DictationRecord>)
        ensures
            rows_of(list@) == interrupted(self@),
    {
        let all = self.in_order();
        let ghost passes = |r: RecordView| r.in_flight();
        let ghost rev = newest_first(self@);
        let mut list: Vec<DictationRecord> = Vec::new();
        let mut left: usize = all.len();
        assert(rev.take(0) =~= Seq::<RecordView>::empty());
        assert(rows_of(list@) =~= Seq::<RecordView>::empty());
        while left > 0
            invariant
                left <= all@.len(),
                rev == rows_of(all@).reverse(),
                rev.len() == all@.len(),
                passes == (|r: RecordView| r.in_flight()),
                rows_of(list@) == picked(rev.take(all@.len() - left), passes),
            decreases left,
        {
            let at: usize = left - 1;
            let ghost done = all@.len() - left;
            let ghost row = all@[at as int]@;
            proof {
                assert(rev[done] == row);
                assert(rev.take(done + 1).drop_last() =~= rev.take(done));
                assert(rev.take(done + 1).last() == row);
            }
            if all[at].is_in_flight() {
                let ghost before = list@;
                list.push(all[at].clone());
                assert(rows_of(list@) =~= rows_of(before).push(row));
            }
            left = at;
        }
        assert(rev.take(all@.len() as int) =~= rev);
        list
    }

    /// Every row's id, visible or not, oldest first.
    pub fn all_ids(&self) -> (ids: Vec<String>)
        ensures
            crate::text::texts(ids@) == oldest_first(self@).map_values(|r: RecordView| r.id),
    {
        let all = self.in_order();
        let mut ids: Vec<String> = Vec::new();
        let mut i: usize = 0;
        while i < all.len()
            invariant
                i <= all@.len(),
                ids@.len() == i,
                forall|k: int| 0 <= k < i ==> (#[trigger] ids@[k])@ == all@[k]@.id,
            decreases all@.len() - i,
        {
            ids.push(all[i].id.clone());
            i += 1;
        }
        assert(crate::text::texts(ids@) =~= oldest_first(self@).map_values(|r: RecordView| r.id));
        ids
    }

    pub fn stats(&self) -> (stats: Stats)
        ensures
            stats.total_words == capped(total_words(self@), usize::MAX as nat),
            stats.total_dictations == transcribed_rows(self@),
            stats.average_wpm == words_per_minute(self@),
    {
        let mut total: usize = 0;
        let mut timed_count: usize = 0;
        let mut speech: u128 = 0;
        let mut dictations: usize = 0;
        let mut i: usize = 0;
        let ghost rows = self@;
        assert(rows.take(0) =~= Seq::<RecordView>::empty());
        while i < self.rows.len()
            invariant
                i <= self.rows@.len(),
                rows == self@,
                dictations <= i,
                total == capped(total_words(rows.take(i as int)), usize::MAX as nat),
                timed_count == capped(timed_words(rows.take(i as int)), usize::MAX as nat),
                speech == capped(timed_speech(rows.take(i as int)), u128::MAX as nat),
                dictations == transcribed_rows(rows.take(i as int)),
            decreases self.rows@.len() - i,
        {
            let row = &self.rows[i];
            proof {
                assert(rows[i as int] == row@);
                assert(rows.take(i + 1).drop_last() =~= rows.take(i as int));
                assert(rows.take(i + 1).last() == row@);
            }
            match &row.cleaned_transcript {
                Some(text) => {
                    let list = words_of(&chars_of(text.as_str()));
                    let count: usize = list.len();
                    assert(crate::text::views(list@).len() == count);
                    dictations += 1;
                    total = total.saturating_add(count);
                    match row.duration {
                        Some(d) => {
                            if d.nanos > 0 {
                                timed_count = timed_count.saturating_add(count);
                                speech = speech.saturating_add(d.nanos);
                            }
                        },
                        None => {},
                    }
                },
                None => {},
            }
            i += 1;
        }
        assert(rows.take(rows.len() as int) =~= rows);
        let average_wpm: u32 = if speech > 10_000_000_000 {
            let per_minute: u128 = timed_count as u128 * 60_000_000_000 / speech;
            if per_minute > u32::MAX as u128 {
                u32::MAX
            } else {
                per_minute as u32
            }
        } else {
            0
        };
        Stats { total_words: total, total_dictations: dictations, average_wpm }
    }
}

/// The rows whose folder is there.
pub open spec fn kept(rows: Seq<RecordView>, present: Seq<bool>) -> Seq<RecordView>
    decreases rows.len(),
{
    if rows.len() == 0 {
        Seq::empty()
    } else {
        let rest = kept(rows.drop_last(), present.drop_last());
        if present.last() {
            rest.push(rows.last())
        } else {
            rest
        }
    }
}

proof fn lemma_kept_ids(rows: Seq<RecordView>, present: Seq<bool>)
    requires
        distinct_ids(rows),
        present.len() == rows.len(),
    ensures
        distinct_ids(kept(rows, present)),
        kept(rows, present).len() <= rows.len(),
        forall|i: int|
            0 <= i < kept(rows, present).len() ==> holds(
                rows,
                (#[trigger] kept(rows, present)[i]).id,
            ),
    decreases rows.len(),
{
    if rows.len() > 0 {
        let rest = rows.drop_last();
        assert forall|i: int, j: int| 0 <= i < j < rest.len() implies (#[trigger] rest[i]).id != (
        #[trigger] rest[j]).id by {
            assert(rows[i].id != rows[j].id);
        }
        lemma_kept_ids(rest, present.drop_last());
        let all = kept(rows, present);
        let sub = kept(rest, present.drop_last());
        assert forall|i: int| 0 <= i < all.len() implies holds(rows, (#[trigger] all[i]).id) by {
            if i < sub.len() {
                assert(all[i] == sub[i]);
                let k = row_at(rest, sub[i].id);
                assert(rest[k] == rows[k]);
            } else {
                assert(rows[rows.len() - 1].id == all[i].id);
            }
        }
        assert forall|i: int, j: int| 0 <= i < j < all.len() implies (#[trigger] all[i]).id != (
        #[trigger] all[j]).id by {
            if j < sub.len() {
                assert(all[i] == sub[i] && all[j] == sub[j]);
            } else {
                assert(all[i] == sub[i]);
                let k = row_at(rest, sub[i].id);
                assert(rest[k] == rows[k]);
                assert(rows[k].id != rows[rows.len() - 1].id);
            }
        }
    }
}

/// An upsert never makes a second row for an id.
pub proof fn upserting_keeps_ids_distinct(rows: Seq<RecordView>, row: RecordView)
    requires
        distinct_ids(rows),
    ensures
        distinct_ids(upserted(rows, row)),
        holds(rows, row.id) ==> upserted(rows, row).len() == rows.len(),
{
    let after = upserted(rows, row);
    if holds(rows, row.id) {
        let at = row_at(rows, row.id);
        assert forall|i: int, j: int| 0 <= i < j < after.len() implies (#[trigger] after[i]).id != (
        #[trigger] after[j]).id by {
            assert(rows[i].id != rows[j].id);
        }
    } else {
        assert forall|i: int, j: int| 0 <= i < j < after.len() implies (#[trigger] after[i]).id != (
        #[trigger] after[j]).id by {
            assert(rows[i].id != row.id);
            if j < rows.len() {
                assert(rows[i].id != rows[j].id);
            }
        }
    }
}

/// What was upserted is what the index says of that id, and the last word wins.
pub proof fn the_last_upsert_wins(rows: Seq<RecordView>, first: RecordView, second: RecordView)
    requires
        distinct_ids(rows),
        first.id == second.id,
    ensures
        upserted(upserted(rows, first), second) == upserted(rows, second),
        holds(upserted(rows, first), first.id),
        upserted(rows, first)[row_at(upserted(rows, first), first.id)] == first,
        forall|row: RecordView|
            row.id != first.id ==> (#[trigger] rows.contains(row) <==> upserted(
                rows,
                first,
            ).contains(row)),
{
    let once = upserted(rows, first);
    upserting_keeps_ids_distinct(rows, first);
    let at = if holds(rows, first.id) {
        row_at(rows, first.id)
    } else {
        rows.len() as int
    };
    assert(once[at] == first);
    assert(once[at].id == first.id);
    assert(holds(once, first.id));
    let there = row_at(once, first.id);
    if there < at {
        assert(once[there].id != once[at].id);
    } else if at < there {
        assert(once[at].id != once[there].id);
    }
    assert(upserted(once, second) =~= upserted(rows, second));
    assert forall|row: RecordView| row.id != first.id implies (#[trigger] rows.contains(row)
        <==> once.contains(row)) by {
        if rows.contains(row) {
            let i = choose|i: int| 0 <= i < rows.len() && rows[i] == row;
            assert(once[i] == row);
        }
        if once.contains(row) {
            let i = choose|i: int| 0 <= i < once.len() && once[i] == row;
            assert(rows[i] == row);
        }
    }
}

proof fn removing_keeps_ids_distinct(rows: Seq<RecordView>, at: int)
    requires
        distinct_ids(rows),
        0 <= at < rows.len(),
    ensures
        distinct_ids(rows.remove(at)),
{
    let after = rows.remove(at);
    assert forall|i: int, j: int| 0 <= i < j < after.len() implies (#[trigger] after[i]).id != (
    #[trigger] after[j]).id by {
        let a = if i < at {
            i
        } else {
            i + 1
        };
        let b = if j < at {
            j
        } else {
            j + 1
        };
        assert(rows[a].id != rows[b].id);
    }
}

/// A deleted row is gone, and every other row stays.
pub proof fn a_deleted_row_is_gone(rows: Seq<RecordView>, id: Seq<char>)
    requires
        distinct_ids(rows),
    ensures
        !holds(removed(rows, id), id),
        forall|row: RecordView|
            row.id != id ==> (#[trigger] rows.contains(row) <==> removed(rows, id).contains(row)),
{
    if holds(rows, id) {
        let at = row_at(rows, id);
        let after = removed(rows, id);
        assert forall|i: int| 0 <= i < after.len() implies (#[trigger] after[i]).id != id by {
            if i < at {
                assert(after[i] == rows[i]);
                assert(rows[i].id != rows[at].id);
            } else {
                assert(after[i] == rows[i + 1]);
                assert(rows[at].id != rows[i + 1].id);
            }
        }
        assert forall|row: RecordView| row.id != id implies (#[trigger] rows.contains(row)
            <==> after.contains(row)) by {
            if rows.contains(row) {
                let i = choose|i: int| 0 <= i < rows.len() && rows[i] == row;
                if i < at {
                    assert(after[i] == row);
                } else {
                    assert(after[i - 1] == row);
                }
            }
            if after.contains(row) {
                let i = choose|i: int| 0 <= i < after.len() && after[i] == row;
                if i < at {
                    assert(rows[i] == row);
                } else {
                    assert(rows[i + 1] == row);
                }
            }
        }
    }
}

/// Nothing in flight and nothing silent is ever shown, whatever is searched for.
pub proof fn history_shows_only_visible_rows(
    rows: Seq<RecordView>,
    search: Option<Seq<char>>,
    limit: int,
)
    requires
        limit >= 0,
    ensures
        forall|i: int|
            0 <= i < shown(rows, search, limit).len() ==> {
                let row = #[trigger] shown(rows, search, limit)[i];
                row.visible() && !row.in_flight() && !row.is_status(SessionStatus::Silent)
            },
        shown(rows, search, limit).len() <= limit,
{
    let passes = |r: RecordView| listed(r, query_of(search));
    crate::rank::lemma_picked(newest_first(rows), passes);
    let all = picked(newest_first(rows), passes);
    assert forall|i: int| 0 <= i < shown(rows, search, limit).len() implies ({
        let row = #[trigger] shown(rows, search, limit)[i];
        row.visible() && !row.in_flight() && !row.is_status(SessionStatus::Silent)
    }) by {
        assert(shown(rows, search, limit)[i] == all[i]);
        assert(passes(all[i]));
    }
}

/// Every visible row is shown when nothing is searched for and there is room.
pub proof fn history_hides_no_words(rows: Seq<RecordView>, limit: int, i: int)
    requires
        0 <= i < rows.len(),
        rows[i].visible(),
        limit >= rows.len(),
    ensures
        shown(rows, None, limit).contains(rows[i]),
{
    let keys = start_times(rows);
    let passes = |r: RecordView| listed(r, query_of(None));
    let order = ordered(keys);
    crate::rank::lemma_ordered(keys);
    crate::rank::an_order_lists_every_position(keys, order, i);
    let k = choose|k: int| 0 <= k < order.len() && order[k] == i;
    let rev = newest_first(rows);
    assert(rev[order.len() - 1 - k] == rows[i]);
    crate::rank::lemma_picks_all(rev, passes, order.len() - 1 - k);
    crate::rank::lemma_picked(rev, passes);
}

/// The retry queue holds only what waits for the network and failures that can
/// pass: never an auth wall or a daily quota.
pub proof fn only_transient_failures_are_retried(rows: Seq<RecordView>)
    ensures
        forall|i: int|
            0 <= i < retry_queue(rows).len() ==> {
                let row = #[trigger] retry_queue(rows)[i];
                ||| row.is_status(SessionStatus::QueuedForRetry)
                ||| row.is_status(SessionStatus::Failed) && row.error_code != Some("auth"@)
                    && row.error_code != Some("quota"@)
            },
{
    crate::rank::lemma_picked(oldest_first(rows), |r: RecordView| r.retryable());
    reveal_strlit("auth");
    reveal_strlit("quota");
    reveal_strlit("network");
    reveal_strlit("timeout");
    reveal_strlit("rate_limit");
    assert("network"@[0] == 'n' && "timeout"@[0] == 't' && "rate_limit"@[0] == 'r');
    assert("auth"@[0] == 'a' && "quota"@[0] == 'q');
}

/// Nothing that waits to be sent again is forgotten.
pub proof fn the_queue_forgets_nothing(rows: Seq<RecordView>, i: int)
    requires
        0 <= i < rows.len(),
        rows[i].retryable(),
    ensures
        retry_queue(rows).contains(rows[i]),
{
    let keys = start_times(rows);
    let order = ordered(keys);
    crate::rank::lemma_ordered(keys);
    crate::rank::an_order_lists_every_position(keys, order, i);
    let k = choose|k: int| 0 <= k < order.len() && order[k] == i;
    assert(oldest_first(rows)[k] == rows[i]);
    crate::rank::lemma_picks_all(oldest_first(rows), |r: RecordView| r.retryable(), k);
}

/// Nothing that was cut off mid-flight is overlooked.
pub proof fn every_interruption_is_found(rows: Seq<RecordView>, i: int)
    requires
        0 <= i < rows.len(),
        rows[i].in_flight(),
    ensures
        interrupted(rows).contains(rows[i]),
{
    let keys = start_times(rows);
    let order = ordered(keys);
    crate::rank::lemma_ordered(keys);
    crate::rank::an_order_lists_every_position(keys, order, i);
    let k = choose|k: int| 0 <= k < order.len() && order[k] == i;
    let rev = newest_first(rows);
    assert(rev[order.len() - 1 - k] == rows[i]);
    crate::rank::lemma_picks_all(rev, |r: RecordView| r.in_flight(), order.len() - 1 - k);
}

/// Audio retention: audio files go after a number of days while transcripts and
/// records stay. Audio is never deleted before a transcript exists.
#[derive(Debug, Clone, Copy, PartialEq, Eq, Structural)]
pub struct RetentionPolicy {
    /// `0` keeps audio forever; a negative value means "never keep audio" and
    /// purges as soon as a transcript exists.
    pub audio_retention_days: i64,
}

impl RetentionPolicy {
    /// Audio of sessions that started before this instant has expired.
    pub open spec fn cutoff(self, now: int) -> int {
        if self.audio_retention_days < 0 {
            now + 60_000_000_000
        } else {
            now - self.audio_retention_days * 86_400_000_000_000
        }
    }

    /// Whether a session's audio may go. Sessions without a transcript are
    /// immune: their audio is the only artifact, and Retry needs it.
    pub open spec fn expires(self, meta: MetaView, now: int) -> bool {
        &&& self.audio_retention_days != 0
        &&& meta.started_at < self.cutoff(now)
        &&& meta.raw_transcript is Some
    }

    pub fn is_expired(&self, meta: &SessionMeta, now: i128) -> (expired: bool)
        ensures
            expired == self.expires(meta@, now as int),
    {
        if self.audio_retention_days == 0 {
            return false;
        }
        let past_cutoff = if self.audio_retention_days < 0 {
            match now.checked_add(60_000_000_000) {
                Some(cutoff) => meta.started_at < cutoff,
                None => true,
            }
        } else {
            match now.checked_sub(self.audio_retention_days as i128 * 86_400_000_000_000) {
                Some(cutoff) => meta.started_at < cutoff,
                None => false,
            }
        };
        past_cutoff && meta.raw_transcript.is_some()
    }

    /// Which of the recorded sessions lose their audio, by position.
    pub fn purge_expired_audio(&self, sessions: &Vec<SessionMeta>, now: i128) -> (expired: Vec<
        usize,
    >)
        ensures
            forall|k: int|
                0 <= k < expired@.len() ==> (#[trigger] expired@[k]) < sessions@.len()
                    && self.expires(sessions@[expired@[k] as int]@, now as int),
            forall|i: usize|
                i < sessions@.len() && self.expires(
                    (#[trigger] sessions@[i as int])@,
                    now as int,
                ) ==> expired@.contains(i),
            forall|a: int, b: int|
                0 <= a < b < expired@.len() ==> #[trigger] expired@[a] < #[trigger] expired@[b],
    {
        let mut expired: Vec<usize> = Vec::new();
        let mut i: usize = 0;
        while i < sessions.len()
            invariant
                i <= sessions@.len(),
                forall|k: int|
                    0 <= k < expired@.len() ==> (#[trigger] expired@[k]) < i && self.expires(
                        sessions@[expired@[k] as int]@,
                        now as int,
                    ),
                forall|j: usize|
                    j < i && self.expires((#[trigger] sessions@[j as int])@, now as int)
                        ==> expired@.contains(j),
                forall|a: int, b: int|
                    0 <= a < b < expired@.len() ==> #[trigger] expired@[a] < #[trigger] expired@[b],
            decreases sessions@.len() - i,
        {
            if self.is_expired(&sessions[i], now) {
                let ghost before = expired@;
                expired.push(i);
                proof {
                    assert(expired@[before.len() as int] == i);
                    assert forall|j: usize|
                        j < i + 1 && self.expires(
                            (#[trigger] sessions@[j as int])@,
                            now as int,
                        ) implies expired@.contains(j) by {
                        if j < i {
                            let k = choose|k: int| 0 <= k < before.len() && before[k] == j;
                            assert(expired@[k] == j);
                        }
                    }
                }
            }
            i += 1;
        }
        expired
    }
}

/// Retention never takes the audio of a session that has no transcript.
pub proof fn audio_without_a_transcript_is_kept(policy: RetentionPolicy, meta: MetaView, now: int)
    requires
        meta.raw_transcript is None,
    ensures
        !policy.expires(meta, now),
{
}

/// With retention off nothing is ever purged.
pub proof fn keeping_audio_forever_purges_nothing(meta: MetaView, now: int)
    ensures
        !(RetentionPolicy { audio_retention_days: 0 }).expires(meta, now),
{
}

/// A longer retention never purges more.
pub proof fn longer_retention_keeps_more(
    shorter: RetentionPolicy,
    longer: RetentionPolicy,
    meta: MetaView,
    now: int,
)
    requires
        0 < shorter.audio_retention_days <= longer.audio_retention_days,
        longer.expires(meta, now),
    ensures
        shorter.expires(meta, now),
{
}

/// The row of a session says what its record says, and when it started to the
/// second.
pub proof fn a_row_says_what_the_record_says(meta: MetaView, folder: Seq<char>)
    ensures
        ({
            let row = RecordView::of(meta, folder);
            &&& row.id == hyphenated_text(meta.id)
            &&& row.folder == folder
            &&& row.started_at * 1_000_000_000 <= meta.started_at < (row.started_at + 1)
                * 1_000_000_000
            &&& row.target_app_name == meta.target_app_name
            &&& row.target_app_exe == meta.target_app_exe
            &&& row.duration == meta.audio_duration
            &&& row.raw_transcript == meta.raw_transcript
            &&& row.cleaned_transcript == meta.cleaned_transcript
            &&& row.error_code == meta.error_code
            &&& row.error_message == meta.error_message
            &&& row.pipeline_time == meta.pipeline_time
        }),
        forall|status: SessionStatus|
            #[trigger] RecordView::of(meta, folder).is_status(status) <==> meta.status == status,
{
    assert forall|status: SessionStatus|
        #[trigger] RecordView::of(meta, folder).is_status(status) implies meta.status == status by {
        crate::meta::status_labels_are_distinct(meta.status, status);
    }
}

/// Which sessions History shows, by how they ended: never one in flight or without
/// speech; of the others, any with words; and of those without, a failed or a queued
/// one, and a cancelled one of ten seconds or more.
pub proof fn what_history_shows(meta: MetaView, folder: Seq<char>)
    ensures
        ({
            let shows = RecordView::of(meta, folder).visible();
            let words = meta.raw_transcript is Some || meta.cleaned_transcript is Some;
            let hidden = meta.status is Recording || meta.status is Recorded || meta.status
                is Transcribing || meta.status is Silent;
            &&& hidden ==> !shows
            &&& !hidden && words ==> shows
            &&& meta.status is Failed || meta.status is QueuedForRetry ==> shows
            &&& meta.status is Cancelled && !words ==> (shows <==> (
            meta.audio_duration matches Some(length) && length.nanos >= 10_000_000_000))
            &&& (meta.status is Inserted || meta.status is CopiedToClipboard || meta.status
                is AwaitingChip || meta.status is HeldSecure || meta.status is Recovered) && !words
                ==> !shows
        }),
{
    a_row_says_what_the_record_says(meta, folder);
    let row = RecordView::of(meta, folder);
    assert(row.is_status(meta.status));
    assert(row.is_status(SessionStatus::Recording) <==> meta.status == SessionStatus::Recording);
    assert(row.is_status(SessionStatus::Recorded) <==> meta.status == SessionStatus::Recorded);
    assert(row.is_status(SessionStatus::Transcribing) <==> meta.status
        == SessionStatus::Transcribing);
    assert(row.is_status(SessionStatus::Silent) <==> meta.status == SessionStatus::Silent);
    assert(row.is_status(SessionStatus::Failed) <==> meta.status == SessionStatus::Failed);
    assert(row.is_status(SessionStatus::QueuedForRetry) <==> meta.status
        == SessionStatus::QueuedForRetry);
    assert(row.is_status(SessionStatus::Cancelled) <==> meta.status == SessionStatus::Cancelled);
}

/// Which sessions are sent again without being asked: a queued one always, and a
/// failed one exactly if the network, the clock or a throttle failed it.
pub proof fn what_the_queue_sends(meta: MetaView, folder: Seq<char>)
    ensures
        ({
            let sends = RecordView::of(meta, folder).retryable();
            &&& meta.status is QueuedForRetry ==> sends
            &&& meta.status is Failed ==> (sends <==> meta.error_code == Some("network"@)
                || meta.error_code == Some("timeout"@) || meta.error_code == Some("rate_limit"@))
            &&& !(meta.status is QueuedForRetry) && !(meta.status is Failed) ==> !sends
        }),
        RecordView::of(meta, folder).in_flight() <==> meta.status is Recording || meta.status
            is Recorded || meta.status is Transcribing,
{
    a_row_says_what_the_record_says(meta, folder);
    let row = RecordView::of(meta, folder);
    assert(row.is_status(SessionStatus::QueuedForRetry) <==> meta.status
        == SessionStatus::QueuedForRetry);
    assert(row.is_status(SessionStatus::Failed) <==> meta.status == SessionStatus::Failed);
    assert(row.is_status(SessionStatus::Recording) <==> meta.status == SessionStatus::Recording);
    assert(row.is_status(SessionStatus::Recorded) <==> meta.status == SessionStatus::Recorded);
    assert(row.is_status(SessionStatus::Transcribing) <==> meta.status
        == SessionStatus::Transcribing);
}

/// A search finds a row by what was said, by what was written or by the program it
/// was dictated into, the case of the letters aside; and by nothing else.
pub proof fn a_search_looks_at_the_words_and_the_program(row: RecordView, query: Seq<char>)
    ensures
        row.found_by(query) <==> {
            ||| (row.raw_transcript matches Some(text) && occurs_in(
                ascii_lowered(query),
                ascii_lowered(text),
            ))
            ||| (row.cleaned_transcript matches Some(text) && occurs_in(
                ascii_lowered(query),
                ascii_lowered(text),
            ))
            ||| (row.target_app_name matches Some(text) && occurs_in(
                ascii_lowered(query),
                ascii_lowered(text),
            ))
        },
{
}

/// What a search shows is visible and found by it, without the white space around
/// it, and with room for all nothing that is both is left out.
pub proof fn a_search_shows_what_it_finds(
    rows: Seq<RecordView>,
    search: Seq<char>,
    limit: int,
    i: int,
)
    requires
        limit >= rows.len(),
        0 <= i < rows.len(),
        trim(search).len() > 0,
    ensures
        shown(rows, Some(search), limit).contains(rows[i]) <==> rows[i].visible()
            && rows[i].found_by(trim(search)),
{
    let passes = |r: RecordView| listed(r, query_of(Some(search)));
    let rev = newest_first(rows);
    crate::rank::lemma_picked(rev, passes);
    crate::rank::lemma_ordered(start_times(rows));
    let all = picked(rev, passes);
    assert(shown(rows, Some(search), limit) == all);
    if all.contains(rows[i]) {
        let k = choose|k: int| 0 <= k < all.len() && all[k] == rows[i];
        assert(passes(all[k]));
    }
    if rows[i].visible() && rows[i].found_by(trim(search)) {
        let keys = start_times(rows);
        let order = ordered(keys);
        crate::rank::an_order_lists_every_position(keys, order, i);
        let k = choose|k: int| 0 <= k < order.len() && order[k] == i;
        assert(rev[order.len() - 1 - k] == rows[i]);
        crate::rank::lemma_picks_all(rev, passes, order.len() - 1 - k);
    }
}

/// A search that is only white space is no search.
pub proof fn a_blank_search_is_none(rows: Seq<RecordView>, search: Seq<char>, limit: int)
    requires
        trim(search).len() == 0,
    ensures
        shown(rows, Some(search), limit) == shown(rows, None, limit),
{
}

proof fn lemma_order_kept(
    rows: Seq<RecordView>,
    passes: spec_fn(RecordView) -> bool,
    upward: bool,
)
    requires
        forall|i: int, j: int|
            0 <= i < j < rows.len() ==> if upward {
                (#[trigger] rows[i]).started_at <= (#[trigger] rows[j]).started_at
            } else {
                rows[i].started_at >= rows[j].started_at
            },
    ensures
        forall|i: int, j: int|
            0 <= i < j < picked(rows, passes).len() ==> if upward {
                (#[trigger] picked(rows, passes)[i]).started_at <= (#[trigger] picked(
                    rows,
                    passes,
                )[j]).started_at
            } else {
                picked(rows, passes)[i].started_at >= picked(rows, passes)[j].started_at
            },
    decreases rows.len(),
{
    if rows.len() > 0 {
        let rest = rows.drop_last();
        lemma_order_kept(rest, passes, upward);
        crate::rank::lemma_picked(rest, passes);
        let some = picked(rest, passes);
        let all = picked(rows, passes);
        assert forall|i: int, j: int| 0 <= i < j < all.len() implies if upward {
            (#[trigger] all[i]).started_at <= (#[trigger] all[j]).started_at
        } else {
            all[i].started_at >= all[j].started_at
        } by {
            assert(all[i] == some[i]);
            if j < some.len() {
                assert(all[j] == some[j]);
            } else {
                assert(rest.contains(some[i]));
                let k = choose|k: int| 0 <= k < rest.len() && rest[k] == some[i];
                assert(rows[k] == some[i]);
                assert(rows[rows.len() - 1] == all[j]);
            }
        }
    }
}

/// History shows the newest first, and so does the list of interruptions; the
/// queue sends the oldest first.
pub proof fn rows_come_in_the_order_of_time(
    rows: Seq<RecordView>,
    search: Option<Seq<char>>,
    limit: int,
)
    requires
        limit >= 0,
    ensures
        forall|i: int, j: int|
            0 <= i < j < shown(rows, search, limit).len() ==> (#[trigger] shown(
                rows,
                search,
                limit,
            )[i]).started_at >= (#[trigger] shown(rows, search, limit)[j]).started_at,
        forall|i: int, j: int|
            0 <= i < j < interrupted(rows).len() ==> (#[trigger] interrupted(rows)[i]).started_at
                >= (#[trigger] interrupted(rows)[j]).started_at,
        forall|i: int, j: int|
            0 <= i < j < retry_queue(rows).len() ==> (#[trigger] retry_queue(rows)[i]).started_at
                <= (#[trigger] retry_queue(rows)[j]).started_at,
{
    let keys = start_times(rows);
    let order = ordered(keys);
    crate::rank::lemma_ordered(keys);
    let up = oldest_first(rows);
    let down = newest_first(rows);
    assert forall|i: int, j: int| 0 <= i < j < up.len() implies (#[trigger] up[i]).started_at <= (
    #[trigger] up[j]).started_at by {
        assert(crate::rank::precedes(keys, order[i], order[j]));
        assert(keys[order[i]] == rows[order[i]].started_at);
        assert(keys[order[j]] == rows[order[j]].started_at);
    }
    assert forall|i: int, j: int| 0 <= i < j < down.len() implies (#[trigger] down[i]).started_at
        >= (#[trigger] down[j]).started_at by {
        assert(down[i] == up[up.len() - 1 - i]);
        assert(down[j] == up[up.len() - 1 - j]);
    }
    lemma_order_kept(down, |r: RecordView| listed(r, query_of(search)), false);
    lemma_order_kept(down, |r: RecordView| r.in_flight(), false);
    lemma_order_kept(up, |r: RecordView| r.retryable(), true);
}

/// What History adds up is added up row by row: the words of every cleaned
/// transcript, and one dictation for each; the pace counts only rows that were
/// timed, and only from ten seconds of speech on.
pub proof fn history_adds_up(rows: Seq<RecordView>, row: RecordView)
    ensures
        total_words(rows.push(row)) == total_words(rows) + (match row.cleaned_transcript {
            Some(text) => words(text).len(),
            None => 0,
        }),
        transcribed_rows(rows.push(row)) == transcribed_rows(rows) + (
        if row.cleaned_transcript is Some {
            1nat
        } else {
            0nat
        }),
        row.cleaned_transcript is Some && (row.duration matches Some(d) && d.nanos > 0) ==> {
            &&& timed_words(rows.push(row)) == timed_words(rows) + words(
                row.cleaned_transcript->0,
            ).len()
            &&& timed_speech(rows.push(row)) == timed_speech(rows) + (row.duration->0).nanos
        },
        row.cleaned_transcript is None || row.duration is None ==> {
            &&& timed_words(rows.push(row)) == timed_words(rows)
            &&& timed_speech(rows.push(row)) == timed_speech(rows)
        },
        timed_speech(rows) <= 10_000_000_000 ==> words_per_minute(rows) == 0,
        10_000_000_000 < timed_speech(rows) <= u128::MAX && timed_words(rows) <= usize::MAX
            && words_per_minute(rows) < u32::MAX ==> words_per_minute(rows) * timed_speech(rows)
            <= timed_words(rows) * 60_000_000_000 < (words_per_minute(rows) + 1) * timed_speech(
            rows,
        ),
        total_words(Seq::empty()) == 0,
        transcribed_rows(Seq::empty()) == 0,
{
    assert(rows.push(row).drop_last() =~= rows);
    let speech = timed_speech(rows) as int;
    let said = (timed_words(rows) * 60_000_000_000) as int;
    if speech > 10_000_000_000 {
        let pace = said / speech;
        assert(pace * speech <= said < (pace + 1) * speech) by (nonlinear_arith)
            requires
                pace == said / speech,
                speech > 0,
        ;
    }
}

/// Indexing the sessions on disk leaves a row for each of them, of two with one id
/// for the later; every other row whose folder is there stays, and no row does
/// whose folder is not.
pub proof fn the_index_follows_the_disk(
    rows: Seq<RecordView>,
    found: Seq<(MetaView, Seq<char>)>,
    folders: Seq<Seq<char>>,
    k: int,
)
    requires
        distinct_ids(rows),
        0 <= k < found.len(),
        forall|j: int|
            k < j < found.len() ==> hyphenated_text((#[trigger] found[j]).0.id) != hyphenated_text(
                found[k].0.id,
            ),
        folders.contains(found[k].1),
    ensures
        ({
            let all = indexed(rows, found);
            let after = kept(all, in_folders(all, folders));
            &&& after.contains(RecordView::of(found[k].0, found[k].1))
            &&& forall|i: int|
                0 <= i < after.len() ==> folders.contains((#[trigger] after[i]).folder)
            &&& forall|row: RecordView| #[trigger]
                all.contains(row) && folders.contains(row.folder) ==> after.contains(row)
        }),
{
    let all = indexed(rows, found);
    lemma_indexed(rows, found, k);
    assert(all.contains(RecordView::of(found[k].0, found[k].1)));
    lemma_kept_are_there(all, folders);
}

proof fn lemma_indexed(rows: Seq<RecordView>, found: Seq<(MetaView, Seq<char>)>, k: int)
    requires
        0 <= k < found.len(),
        forall|j: int|
            k < j < found.len() ==> hyphenated_text((#[trigger] found[j]).0.id) != hyphenated_text(
                found[k].0.id,
            ),
    ensures
        indexed(rows, found).contains(RecordView::of(found[k].0, found[k].1)),
    decreases found.len(),
{
    let before = indexed(rows, found.drop_last());
    let last = RecordView::of(found.last().0, found.last().1);
    let all = indexed(rows, found);
    let row = RecordView::of(found[k].0, found[k].1);
    if k == found.len() - 1 {
        if holds(before, last.id) {
            assert(all[row_at(before, last.id)] == row);
        } else {
            assert(all[before.len() as int] == row);
        }
    } else {
        let rest = found.drop_last();
        assert(rest[k] == found[k]);
        assert forall|j: int| k < j < rest.len() implies hyphenated_text((#[trigger] rest[j]).0.id)
            != hyphenated_text(rest[k].0.id) by {
            assert(rest[j] == found[j]);
        }
        lemma_indexed(rows, rest, k);
        assert(found[found.len() - 1] == found.last());
        let i = choose|i: int| 0 <= i < before.len() && before[i] == row;
        assert(all[i] == row);
    }
}

proof fn lemma_kept_are_there(rows: Seq<RecordView>, folders: Seq<Seq<char>>)
    ensures
        ({
            let after = kept(rows, in_folders(rows, folders));
            &&& forall|i: int|
                0 <= i < after.len() ==> folders.contains((#[trigger] after[i]).folder)
                    && rows.contains(after[i])
            &&& forall|row: RecordView| #[trigger]
                rows.contains(row) && folders.contains(row.folder) ==> after.contains(row)
        }),
    decreases rows.len(),
{
    if rows.len() > 0 {
        let rest = rows.drop_last();
        lemma_kept_are_there(rest, folders);
        assert(in_folders(rows, folders).drop_last() =~= in_folders(rest, folders));
        let some = kept(rest, in_folders(rest, folders));
        let after = kept(rows, in_folders(rows, folders));
        assert(in_folders(rows, folders).last() == folders.contains(rows.last().folder));
        assert forall|i: int| 0 <= i < after.len() implies folders.contains(
            (#[trigger] after[i]).folder,
        ) && rows.contains(after[i]) by {
            if i < some.len() {
                assert(after[i] == some[i]);
                let k = choose|k: int| 0 <= k < rest.len() && rest[k] == some[i];
                assert(rows[k] == some[i]);
            } else {
                assert(rows[rows.len() - 1] == after[i]);
            }
        }
        assert forall|row: RecordView| #[trigger]
            rows.contains(row) && folders.contains(row.folder) implies after.contains(row) by {
            let k = choose|k: int| 0 <= k < rows.len() && rows[k] == row;
            if k < rest.len() {
                assert(rest[k] == row);
                assert(rest.contains(row));
                let at = choose|at: int| 0 <= at < some.len() && some[at] == row;
                assert(after[at] == row);
            } else {
                assert(after[after.len() - 1] == row);
            }
        }
    }
}

/// Deleting everything removes every folder but the live session's.
pub proof fn deleting_everything_spares_the_live_session(
    folders: Vec<String>,
    sparing: Option<&str>,
    gone: Vec<String>,
    folder: Seq<char>,
)
    requires
        call_ensures(swept, (&folders, sparing), gone),
        texts(folders@).contains(folder),
    ensures
        sparing is None ==> texts(gone@).contains(folder),
        sparing matches Some(spared) ==> (texts(gone@).contains(folder) <==> spared@ != folder),
{
    let goes = |f: Seq<char>| !(sparing matches Some(spared) && spared@ == f);
    let all = texts(folders@);
    crate::rank::lemma_picked(all, goes);
    let i = choose|i: int| 0 <= i < all.len() && all[i] == folder;
    if goes(folder) {
        crate::rank::lemma_picks_all(all, goes, i);
    }
    if texts(gone@).contains(folder) {
        let k = choose|k: int| 0 <= k < texts(gone@).len() && texts(gone@)[k] == folder;
        assert(goes(texts(gone@)[k]));
    }
}

/// Audio with a transcript goes once the session is more than the chosen number of
/// days old, and not before; where audio is never kept, as soon as it has one.
pub proof fn audio_goes_when_its_days_are_over(
    days: i64,
    meta: SessionMeta,
    now: i128,
    expired: bool,
)
    requires
        call_ensures(
            RetentionPolicy::is_expired,
            (&(RetentionPolicy { audio_retention_days: days }), &meta, now),
            expired,
        ),
    ensures
        meta.raw_transcript is None ==> !expired,
        days == 0 ==> !expired,
        days > 0 && meta.raw_transcript is Some ==> (expired <==> now - meta.started_at > days
            * 86_400_000_000_000),
        days < 0 && meta.raw_transcript is Some && meta.started_at <= now ==> expired,
{
}

/// A shorter page shows the newest of what a longer one shows.
pub proof fn a_page_shows_the_newest(
    rows: Seq<RecordView>,
    search: Option<Seq<char>>,
    fewer: int,
    more: int,
)
    requires
        0 <= fewer <= more,
    ensures
        shown(rows, search, fewer).is_prefix_of(shown(rows, search, more)),
        shown(rows, search, more).len() >= fewer ==> shown(rows, search, fewer).len() == fewer,
{
    let all = picked(newest_first(rows), |r: RecordView| listed(r, query_of(search)));
    assert(shown(rows, search, fewer) =~= shown(rows, search, more).take(
        shown(rows, search, fewer).len() as int,
    ));
}

/// A row shows the cleaned words, else what was said, else nothing.
pub proof fn a_row_shows_the_cleaned_words_first(row: RecordView)
    ensures
        row.cleaned_transcript is Some ==> row.display() == row.cleaned_transcript->0,
        row.cleaned_transcript is None && row.raw_transcript is Some ==> row.display()
            == row.raw_transcript->0,
        row.cleaned_transcript is None && row.raw_transcript is None ==> row.display().len() == 0,
{
}

} // verus!
