//! Where everything lives on disk: one folder per dictation holding its audio,
//! the crash-safe master, and its record.

use vstd::prelude::*;

use crate::clock::{calendar_text, formatted, Duration, LAST_CALENDAR_SECOND};
use crate::ids::{simple, simple_text};
use crate::text::{chars_of, slice_of, string_of, texts};

verus! {

/// A place on disk: the names that lead to it from the program's own folder.
#[derive(Debug)]
pub struct Location {
    pub parts: Vec<String>,
}

impl View for Location {
    type V = Seq<Seq<char>>;

    open spec fn view(&self) -> Seq<Seq<char>> {
        texts(self.parts@)
    }
}

impl Location {
    /// The program's own folder.
    pub fn root() -> (place: Self)
        ensures
            place@ == Seq::<Seq<char>>::empty(),
    {
        let place = Location { parts: Vec::new() };
        assert(place@ =~= Seq::<Seq<char>>::empty());
        place
    }

    /// What is called `name` inside this place.
    pub fn join(&self, name: &str) -> (place: Self)
        ensures
            place@ == self@.push(name@),
    {
        let mut parts: Vec<String> = Vec::new();
        let mut i: usize = 0;
        while i < self.parts.len()
            invariant
                i <= self.parts@.len(),
                parts@.len() == i,
                forall|k: int| 0 <= k < i ==> (#[trigger] parts@[k])@ == self.parts@[k]@,
            decreases self.parts@.len() - i,
        {
            parts.push(self.parts[i].clone());
            i += 1;
        }
        parts.push(name.to_owned());
        let place = Location { parts };
        assert(place@ =~= self@.push(name@));
        place
    }
}

pub fn recordings_root() -> (place: Location)
    ensures
        place@ == seq!["recordings"@],
{
    Location::root().join("recordings")
}

pub fn settings_json() -> (place: Location)
    ensures
        place@ == seq!["settings.json"@],
{
    Location::root().join("settings.json")
}

pub fn dictionary_json() -> (place: Location)
    ensures
        place@ == seq!["dictionary.json"@],
{
    Location::root().join("dictionary.json")
}

pub fn history_sqlite() -> (place: Location)
    ensures
        place@ == seq!["history.sqlite"@],
{
    Location::root().join("history.sqlite")
}

pub fn audio_wav(folder: &Location) -> (place: Location)
    ensures
        place@ == folder@.push("audio.wav"@),
{
    folder.join("audio.wav")
}

pub fn meta_json(folder: &Location) -> (place: Location)
    ensures
        place@ == folder@.push("meta.json"@),
{
    folder.join("meta.json")
}

/// The form of the time stamp in a folder's name.
pub const FOLDER_STAMP: &'static str = "[year][month][day]-[hour][minute][second]";

/// An instant, in nanoseconds since the Unix epoch, as year, month, day, a
/// hyphen, hour, minute and second in UTC; nothing if the calendar does not
/// reach it.
pub open spec fn utc_stamp(nanos: int) -> Option<Seq<char>> {
    calendar_text(FOLDER_STAMP@, nanos, 0)
}

/// The name of a session's folder: when it started, for sorting by eye, and the
/// first eight digits of its identifier.
pub fn session_folder_name(id: u128, started_at: i128) -> (name: Option<String>)
    ensures
        match utc_stamp(started_at as int) {
            Some(stamp) => name is Some && (name->0)@ == stamp + seq!['-'] + simple_text(
                id,
            ).subrange(0, 8),
            None => name is None,
        },
        0 <= started_at && started_at as int / 1_000_000_000 <= LAST_CALENDAR_SECOND ==> name
            is Some && (name->0)@.len() == 24,
{
    match formatted(FOLDER_STAMP, started_at, 0) {
        Some(text) => {
            let digits = chars_of(simple(id).as_str());
            proof {
                crate::ids::lemma_simple_len(id);
            }
            let short = slice_of(&digits, 0, 8);
            let mut name = text;
            name.append("-");
            proof {
                reveal_strlit("-");
            }
            name.append(string_of(&short).as_str());
            assert("-"@ =~= seq!['-']);
            Some(name)
        },
        None => None,
    }
}

/// A fresh session's folder.
pub fn make_session_folder(id: u128, now: i128) -> (place: Option<Location>)
    ensures
        match utc_stamp(now as int) {
            Some(stamp) => place is Some && (place->0)@ == seq![
                "recordings"@,
                stamp + seq!['-'] + simple_text(id).subrange(0, 8),
            ],
            None => place is None,
        },
{
    match session_folder_name(id, now) {
        Some(name) => Some(recordings_root().join(name.as_str())),
        None => None,
    }
}

/// Bytes per second of the capture format.
pub const WAV_BYTES_PER_SECOND: u64 = 32_000;

/// The header of a recording.
pub const WAV_HEADER_BYTES: u64 = 44;

/// A file no longer than its header and this much holds no audio to speak of.
pub const WAV_NEGLIGIBLE_BYTES: u64 = 4096;

/// Nanoseconds of audio in one byte.
pub const NANOS_PER_BYTE: u128 = 31_250;

/// How much audio a file of this size holds.
pub open spec fn wav_length(bytes: u64) -> Option<Duration> {
    if bytes <= WAV_HEADER_BYTES + WAV_NEGLIGIBLE_BYTES {
        None
    } else {
        Some(Duration { nanos: ((bytes - WAV_HEADER_BYTES) * NANOS_PER_BYTE) as u128 })
    }
}

/// Duration estimate from the size of the recording, for crash-recovered
/// sessions whose record never got a duration.
pub fn estimated_duration_of_wav(bytes: u64) -> (length: Option<Duration>)
    ensures
        length == wav_length(bytes),
{
    if bytes <= WAV_HEADER_BYTES + WAV_NEGLIGIBLE_BYTES {
        return None;
    }
    Some(Duration { nanos: (bytes - WAV_HEADER_BYTES) as u128 * NANOS_PER_BYTE })
}

/// One second of audio is as many bytes as the capture format says.
pub proof fn a_second_of_audio_is_a_second(bytes: u64)
    requires
        bytes > WAV_HEADER_BYTES + WAV_NEGLIGIBLE_BYTES,
    ensures
        (wav_length(bytes)->0).nanos * WAV_BYTES_PER_SECOND == (bytes - WAV_HEADER_BYTES)
            * 1_000_000_000,
{
}

/// How long a recording is by its size: nothing where there is hardly more than
/// the header, else what is behind the header at 32000 bytes a second.
pub proof fn a_file_is_as_long_as_its_samples(bytes: u64, length: Option<Duration>)
    requires
        call_ensures(estimated_duration_of_wav, (bytes,), length),
    ensures
        length is None <==> bytes <= 4140,
        length matches Some(d) ==> d.nanos * 32_000 == (bytes - 44) * 1_000_000_000,
{
}

/// The name of a session's folder is its time stamp, a hyphen and eight digits of
/// its identifier.
pub proof fn a_folder_is_named_by_time_and_id(
    id: u128,
    started_at: i128,
    name: Option<String>,
)
    requires
        call_ensures(session_folder_name, (id, started_at), name),
    ensures
        name is Some <==> utc_stamp(started_at as int) is Some,
        name matches Some(text) ==> text@ == utc_stamp(started_at as int)->0 + seq!['-']
            + simple_text(id).take(8),
{
    if name is Some {
        assert(simple_text(id).subrange(0, 8) =~= simple_text(id).take(8));
    }
}

} // verus!
