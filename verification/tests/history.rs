use jot::clock::Duration;
use jot::history::{swept, HistoryStore, RetentionPolicy};
use jot::meta::{SessionMeta, SessionStatus};

const NOW: i128 = 1_787_839_509_000_000_000;
const DAY: i128 = 86_400_000_000_000;

fn meta(id: u128, status: SessionStatus) -> SessionMeta {
    SessionMeta::new(id, NOW, status)
}

#[test]
fn upsert_updates_rather_than_duplicating() {
    let mut store = HistoryStore::new();
    let mut record = meta(1, SessionStatus::Recorded);
    store.upsert(&record, "session");
    record.status = SessionStatus::Inserted;
    record.cleaned_transcript = Some("hello there".into());
    store.upsert(&record, "session");

    assert_eq!(store.all_ids().len(), 1);
    let rows = store.records(None, 10);
    assert_eq!(rows.len(), 1);
    assert_eq!(rows[0].display_text(), "hello there");
}

#[test]
fn in_flight_and_silent_rows_stay_out_of_history() {
    let mut store = HistoryStore::new();
    for (id, status) in [
        (1, SessionStatus::Recording),
        (2, SessionStatus::Recorded),
        (3, SessionStatus::Transcribing),
        (4, SessionStatus::Silent),
    ] {
        store.upsert(&meta(id, status), "session");
    }
    assert!(store.records(None, 10).is_empty());
    assert_eq!(store.all_ids().len(), 4);
}

#[test]
fn a_short_cancel_is_hidden_but_a_long_one_is_recoverable() {
    let mut store = HistoryStore::new();
    let mut short = meta(1, SessionStatus::Cancelled);
    short.audio_duration = Some(Duration::from_secs(3));
    store.upsert(&short, "session");
    assert!(store.records(None, 10).is_empty());

    let mut long = meta(2, SessionStatus::Cancelled);
    long.audio_duration = Some(Duration::from_secs(42));
    store.upsert(&long, "session");
    assert_eq!(store.records(None, 10).len(), 1);
}

#[test]
fn search_escapes_like_wildcards() {
    let mut store = HistoryStore::new();
    let mut hit = meta(1, SessionStatus::Inserted);
    hit.cleaned_transcript = Some("we hit 100% of target".into());
    store.upsert(&hit, "session");
    let mut miss = meta(2, SessionStatus::Inserted);
    miss.cleaned_transcript = Some("nothing relevant".into());
    store.upsert(&miss, "session");

    assert_eq!(store.records(Some("100%"), 10).len(), 1);
    // A bare "%" searches for a literal percent sign. Unescaped it would be a
    // wildcard and match every row, including "nothing relevant".
    assert_eq!(store.records(Some("%"), 10).len(), 1);
}

#[test]
fn only_transient_failures_are_offered_to_the_retry_queue() {
    let mut store = HistoryStore::new();
    for (id, code) in
        [(1, "network"), (2, "timeout"), (3, "rate_limit"), (4, "auth"), (5, "quota")]
    {
        let mut record = meta(id, SessionStatus::Failed);
        record.error_code = Some(code.into());
        store.upsert(&record, "session");
    }
    store.upsert(&meta(6, SessionStatus::QueuedForRetry), "session");
    assert_eq!(store.retryable_records().len(), 4);
}

#[test]
fn interrupted_records_are_the_crash_recovery_set() {
    let mut store = HistoryStore::new();
    store.upsert(&meta(1, SessionStatus::Recording), "session");
    store.upsert(&meta(2, SessionStatus::Transcribing), "session");
    store.upsert(&meta(3, SessionStatus::Inserted), "session");
    assert_eq!(store.interrupted_records().len(), 2);
}

#[test]
fn stats_count_words_across_whitespace_and_ignore_untimed_rows_for_wpm() {
    let mut store = HistoryStore::new();
    let mut timed = meta(1, SessionStatus::Inserted);
    timed.cleaned_transcript = Some("one two\nthree four".into());
    timed.audio_duration = Some(Duration::from_secs(60));
    store.upsert(&timed, "session");
    let mut untimed = meta(2, SessionStatus::Inserted);
    untimed.cleaned_transcript = Some("five six".into());
    store.upsert(&untimed, "session");

    let stats = store.stats();
    assert_eq!(stats.total_words, 6);
    assert_eq!(stats.total_dictations, 2);
    assert_eq!(stats.average_wpm, 4);
}

#[test]
fn reindex_prunes_rows_whose_folders_are_gone() {
    let mut store = HistoryStore::new();
    store.upsert(&meta(1, SessionStatus::Inserted), "gone");
    assert_eq!(store.all_ids().len(), 1);
    assert_eq!(store.reindex(&Vec::new(), &Vec::new()), 1);
    assert!(store.all_ids().is_empty());
}

#[test]
fn reindex_takes_in_what_is_on_disk() {
    let mut store = HistoryStore::new();
    store.upsert(&meta(1, SessionStatus::Inserted), "gone");
    let found = vec![(meta(2, SessionStatus::Inserted), "here".to_string())];
    assert_eq!(store.reindex(&found, &vec!["here".to_string()]), 1);
    assert_eq!(store.folders(), vec!["here"]);
}

#[test]
fn retention_keeps_audio_for_a_cancel_that_has_no_transcript() {
    let mut record = meta(1, SessionStatus::Cancelled);
    record.started_at = NOW - 30 * DAY;
    let policy = RetentionPolicy { audio_retention_days: 7 };
    assert!(policy.purge_expired_audio(&vec![record], NOW).is_empty());
}

#[test]
fn retention_keeps_the_audio_of_a_silent_session() {
    let mut record = meta(1, SessionStatus::Silent);
    record.started_at = NOW - 30 * DAY;
    for days in [7, -1] {
        let policy = RetentionPolicy { audio_retention_days: days };
        assert!(policy.purge_expired_audio(&vec![record.clone()], NOW).is_empty());
    }
    record.raw_transcript = Some("hello".to_string());
    let policy = RetentionPolicy { audio_retention_days: 7 };
    assert_eq!(policy.purge_expired_audio(&vec![record], NOW), vec![0]);
}

#[test]
fn retention_purges_transcribed_audio_past_the_cutoff() {
    let mut record = meta(1, SessionStatus::Inserted);
    record.started_at = NOW - 30 * DAY;
    record.raw_transcript = Some("hello".into());
    let policy = RetentionPolicy { audio_retention_days: 7 };
    assert_eq!(policy.purge_expired_audio(&vec![record], NOW), vec![0]);
}

#[test]
fn never_keep_audio_purges_a_dictation_that_just_finished() {
    let mut record = meta(1, SessionStatus::Inserted);
    record.raw_transcript = Some("hello".into());
    let policy = RetentionPolicy { audio_retention_days: -1 };
    assert_eq!(policy.purge_expired_audio(&vec![record], NOW).len(), 1);
}

#[test]
fn keeping_audio_forever_purges_nothing() {
    let policy = RetentionPolicy { audio_retention_days: 0 };
    assert!(policy.purge_expired_audio(&Vec::new(), NOW).is_empty());
    let mut old = meta(1, SessionStatus::Inserted);
    old.started_at = NOW - 3_000 * DAY;
    old.raw_transcript = Some("hello".into());
    assert!(policy.purge_expired_audio(&vec![old], NOW).is_empty());
}

#[test]
fn the_newest_dictation_comes_first() {
    let mut store = HistoryStore::new();
    for (id, age) in [(1, 2), (2, 0), (3, 1)] {
        let mut record = meta(id, SessionStatus::Inserted);
        record.started_at = NOW - age * DAY;
        record.cleaned_transcript = Some(format!("text {id}"));
        store.upsert(&record, "session");
    }
    let texts: Vec<String> =
        store.records(None, 2).iter().map(|row| row.display_text()).collect();
    assert_eq!(texts, vec!["text 2", "text 3"]);
}

#[test]
fn deleting_one_row_hands_back_its_folder() {
    let mut store = HistoryStore::new();
    store.upsert(&meta(1, SessionStatus::Inserted), "one");
    store.upsert(&meta(2, SessionStatus::Inserted), "two");
    let id = store.all_ids()[0].clone();
    assert_eq!(id, "00000000-0000-0000-0000-000000000001");
    assert_eq!(store.delete(&id).as_deref(), Some("one"));
    assert_eq!(store.delete(&id), None);
    assert!(store.record(&id).is_none());
    store.delete_all();
    assert!(store.all_ids().is_empty());
}

#[test]
fn the_live_session_survives_a_sweep() {
    let folders = vec!["a".to_string(), "b".to_string()];
    assert_eq!(swept(&folders, Some("a")), vec!["b"]);
    assert_eq!(swept(&folders, None), folders);
}
