//! The bookkeeping of a recording: what was captured, when it has drained, and
//! when the disk or the device has let it down.

use vstd::prelude::*;

use crate::clock::Duration;
use crate::levels::{Level, LEVEL_FULL, LEVEL_ZERO};
use crate::meta::copied_spans;
use crate::text::{chars_of, opt_text, same_text, trim, trimmed};

verus! {

/// The wire format: 16 kHz mono 16-bit PCM.
pub const SAMPLE_RATE: u32 = 16_000;

/// Nanoseconds of audio in one frame.
pub const FRAME_NANOS: u128 = 62_500;

/// How many nanoseconds a stopped recording keeps draining. The device delivers
/// whole buffers, so tearing the stream down at once throws away the tail of the
/// last word.
pub const DRAIN_AFTER_STOP: u128 = 80_000_000;

/// How often, in nanoseconds, the file header is rewritten and the input device
/// is checked again.
pub const HOUSEKEEPING_INTERVAL: u128 = 1_000_000_000;

/// Consecutive failed writes before the session is declared unwritable.
pub const WRITE_FAILURE_LIMIT: u32 = 5;

/// Result of a completed (or stopped) capture.
#[derive(Debug)]
pub struct AudioCaptureResult {
    pub frames_written: u64,
    pub duration: Duration,
    /// Positions from the start where a device change may have left a seam.
    pub gap_markers: Vec<Duration>,
    /// Peak metered level. Distinguishes "held the key in silence" from "spoke
    /// but transcription came back empty".
    pub peak_level: Level,
    /// The same peak, computed from what was actually written to disk.
    pub written_peak_level: Level,
    /// False when nothing measured this session's loudness. Callers must then
    /// assume speech and upload.
    pub peak_is_trustworthy: bool,
}

pub struct CaptureView {
    pub frames_written: nat,
    pub duration: Duration,
    pub gap_markers: Seq<Duration>,
    pub peak_level: Level,
    pub written_peak_level: Level,
    pub peak_is_trustworthy: bool,
}

impl View for AudioCaptureResult {
    type V = CaptureView;

    open spec fn view(&self) -> CaptureView {
        CaptureView {
            frames_written: self.frames_written as nat,
            duration: self.duration,
            gap_markers: self.gap_markers@,
            peak_level: self.peak_level,
            written_peak_level: self.written_peak_level,
            peak_is_trustworthy: self.peak_is_trustworthy,
        }
    }
}

impl CaptureView {
    /// Nothing captured, and nothing to distrust.
    pub open spec fn nothing() -> CaptureView {
        CaptureView {
            frames_written: 0,
            duration: Duration { nanos: 0 },
            gap_markers: Seq::empty(),
            peak_level: Level { bits: LEVEL_FULL },
            written_peak_level: Level { bits: LEVEL_FULL },
            peak_is_trustworthy: true,
        }
    }
}

impl Default for AudioCaptureResult {
    fn default() -> (result: Self)
        ensures
            result@ == CaptureView::nothing(),
    {
        AudioCaptureResult {
            frames_written: 0,
            duration: Duration { nanos: 0 },
            gap_markers: Vec::new(),
            peak_level: Level { bits: LEVEL_FULL },
            written_peak_level: Level { bits: LEVEL_FULL },
            peak_is_trustworthy: true,
        }
    }
}

impl Clone for AudioCaptureResult {
    fn clone(&self) -> (copy: Self)
        ensures
            copy@ == self@,
    {
        AudioCaptureResult {
            frames_written: self.frames_written,
            duration: self.duration,
            gap_markers: copied_spans(&self.gap_markers),
            peak_level: self.peak_level,
            written_peak_level: self.written_peak_level,
            peak_is_trustworthy: self.peak_is_trustworthy,
        }
    }
}

impl AudioCaptureResult {
    pub fn empty() -> (result: Self)
        ensures
            result@ == CaptureView::nothing(),
    {
        Self::default()
    }
}

/// Why a recording could not start.
#[derive(Debug, PartialEq, Eq)]
pub enum CaptureError {
    /// No input device exists at all. "Mic didn't start" is the wrong advice on
    /// a machine with no microphone attached.
    NoInputDevice,
    Config(String),
    Io(String),
}

impl CaptureError {
    pub open spec fn words(self) -> Seq<char> {
        match self {
            CaptureError::NoInputDevice => "no input device"@,
            CaptureError::Config(detail) => "device config: "@ + detail@,
            CaptureError::Io(detail) => "recording file: "@ + detail@,
        }
    }

    /// The error in words.
    pub fn message(&self) -> (words: String)
        ensures
            words@ == self.words(),
    {
        match self {
            CaptureError::NoInputDevice => "no input device".to_owned(),
            CaptureError::Config(detail) => {
                let mut s = "device config: ".to_owned();
                s.append(detail.as_str());
                s
            },
            CaptureError::Io(detail) => {
                let mut s = "recording file: ".to_owned();
                s.append(detail.as_str());
                s
            },
        }
    }
}

/// A running recording.
#[derive(Debug)]
pub struct Recorder {
    pub frames_written: u64,
    pub gap_markers: Vec<Duration>,
    pub peak_level: Level,
    pub written_peak_level: Level,
    pub metered_anything: bool,
    pub write_failures: u32,
    pub write_failure_reported: bool,
    pub stopping_since: Option<Duration>,
    pub last_housekeeping: Duration,
}

/// What a recording amounts to so far.
pub struct RecorderView {
    pub frames_written: nat,
    pub gap_markers: Seq<Duration>,
    pub peak_level: Level,
    pub written_peak_level: Level,
    pub metered_anything: bool,
    pub write_failures: nat,
    pub write_failure_reported: bool,
    pub stopping_since: Option<Duration>,
    pub last_housekeeping: Duration,
}

impl View for Recorder {
    type V = RecorderView;

    open spec fn view(&self) -> RecorderView {
        RecorderView {
            frames_written: self.frames_written as nat,
            gap_markers: self.gap_markers@,
            peak_level: self.peak_level,
            written_peak_level: self.written_peak_level,
            metered_anything: self.metered_anything,
            write_failures: self.write_failures as nat,
            write_failure_reported: self.write_failure_reported,
            stopping_since: self.stopping_since,
            last_housekeeping: self.last_housekeeping,
        }
    }
}

/// What to do after a turn of the recording loop.
#[derive(Debug, Clone, Copy, PartialEq, Eq, Structural)]
pub enum Turn {
    Continue,
    /// Rewrite the header and look whether the input device is still the right
    /// one.
    Housekeeping,
    Finish,
}

/// The louder of two levels.
pub open spec fn louder(a: Level, b: Level) -> Level {
    if b.bits > a.bits {
        b
    } else {
        a
    }
}

fn louder_of(a: Level, b: Level) -> (level: Level)
    ensures
        level == louder(a, b),
{
    if b.bits > a.bits {
        b
    } else {
        a
    }
}

/// Counts up to the limit of the counter.
pub open spec fn counted(count: nat, more: nat, limit: nat) -> nat {
    if count + more <= limit {
        count + more
    } else {
        limit
    }
}

impl RecorderView {
    /// After a chunk of audio, written whole or not.
    pub open spec fn took(
        self,
        frames: nat,
        wrote: bool,
        level: Level,
        written_peak: Level,
    ) -> RecorderView {
        RecorderView {
            frames_written: if wrote {
                counted(self.frames_written, frames, u64::MAX as nat)
            } else {
                self.frames_written
            },
            peak_level: louder(self.peak_level, level),
            written_peak_level: louder(self.written_peak_level, written_peak),
            metered_anything: true,
            write_failures: if wrote {
                0
            } else {
                counted(self.write_failures, 1, u32::MAX as nat)
            },
            write_failure_reported: self.write_failure_reported || self.gives_up(wrote),
            ..self
        }
    }

    /// Whether this write makes the session unwritable, said once.
    pub open spec fn gives_up(self, wrote: bool) -> bool {
        &&& !wrote
        &&& self.write_failures + 1 >= WRITE_FAILURE_LIMIT
        &&& !self.write_failure_reported
    }

    /// When a stop was first seen, if one is asked for.
    pub open spec fn stop_seen(self, now: Duration) -> Duration {
        match self.stopping_since {
            Some(since) => since,
            None => now,
        }
    }

    pub open spec fn next_turn(self, now: Duration, stop_requested: bool) -> Turn {
        if stop_requested {
            if now.minus(self.stop_seen(now)).nanos >= DRAIN_AFTER_STOP {
                Turn::Finish
            } else {
                Turn::Continue
            }
        } else if now.minus(self.last_housekeeping).nanos >= HOUSEKEEPING_INTERVAL {
            Turn::Housekeeping
        } else {
            Turn::Continue
        }
    }

    pub open spec fn turned(self, now: Duration, stop_requested: bool) -> RecorderView {
        RecorderView {
            stopping_since: if stop_requested {
                Some(self.stop_seen(now))
            } else {
                self.stopping_since
            },
            last_housekeeping: if self.next_turn(now, stop_requested) == Turn::Housekeeping {
                now
            } else {
                self.last_housekeeping
            },
            ..self
        }
    }

    /// What the finished recording reports.
    pub open spec fn result(self) -> CaptureView {
        CaptureView {
            frames_written: self.frames_written,
            duration: Duration { nanos: (self.frames_written * FRAME_NANOS) as u128 },
            gap_markers: self.gap_markers,
            peak_level: self.peak_level,
            written_peak_level: self.written_peak_level,
            peak_is_trustworthy: self.metered_anything || self.frames_written > 0,
        }
    }
}

impl Recorder {
    pub fn new(now: Duration) -> (recorder: Self)
        ensures
            recorder@ == (RecorderView {
                frames_written: 0,
                gap_markers: Seq::empty(),
                peak_level: Level { bits: LEVEL_ZERO },
                written_peak_level: Level { bits: LEVEL_ZERO },
                metered_anything: false,
                write_failures: 0,
                write_failure_reported: false,
                stopping_since: None,
                last_housekeeping: now,
            }),
    {
        Recorder {
            frames_written: 0,
            gap_markers: Vec::new(),
            peak_level: Level { bits: LEVEL_ZERO },
            written_peak_level: Level { bits: LEVEL_ZERO },
            metered_anything: false,
            write_failures: 0,
            write_failure_reported: false,
            stopping_since: None,
            last_housekeeping: now,
        }
    }

    fn add_frames(&mut self, frames: u64)
        ensures
            final(self)@ == (RecorderView {
                frames_written: counted(old(self)@.frames_written, frames as nat, u64::MAX as nat),
                ..old(self)@
            }),
    {
        if frames <= u64::MAX - self.frames_written {
            self.frames_written += frames;
        } else {
            self.frames_written = u64::MAX;
        }
    }

    /// One chunk from the device. Says whether to report, this once, that the
    /// disk cannot be written to.
    pub fn on_chunk(&mut self, frames: u64, wrote: bool, level: Level, written_peak: Level) -> (
        report: bool)
        ensures
            final(self)@ == old(self)@.took(frames as nat, wrote, level, written_peak),
            report == old(self)@.gives_up(wrote),
    {
        let mut report = false;
        self.written_peak_level = louder_of(self.written_peak_level, written_peak);
        if wrote {
            self.write_failures = 0;
            self.add_frames(frames);
        } else {
            if self.write_failures < u32::MAX {
                self.write_failures += 1;
            }
            if self.write_failures >= WRITE_FAILURE_LIMIT && !self.write_failure_reported {
                self.write_failure_reported = true;
                report = true;
            }
        }
        self.metered_anything = true;
        self.peak_level = louder_of(self.peak_level, level);
        report
    }

    /// What to do next. A stopped recording drains a little before it finishes,
    /// and does no housekeeping meanwhile.
    pub fn after_turn(&mut self, now: Duration, stop_requested: bool) -> (turn: Turn)
        ensures
            turn == old(self)@.next_turn(now, stop_requested),
            final(self)@ == old(self)@.turned(now, stop_requested),
    {
        if stop_requested {
            let since = match self.stopping_since {
                Some(since) => since,
                None => now,
            };
            self.stopping_since = Some(since);
            return if now.saturating_sub(since).nanos >= DRAIN_AFTER_STOP {
                Turn::Finish
            } else {
                Turn::Continue
            };
        }
        if now.saturating_sub(self.last_housekeeping).nanos >= HOUSEKEEPING_INTERVAL {
            self.last_housekeeping = now;
            return Turn::Housekeeping;
        }
        Turn::Continue
    }

    /// The input device changed: a seam at this point of the recording.
    pub fn device_changed(&mut self, elapsed: Duration)
        ensures
            final(self)@ == (RecorderView {
                gap_markers: old(self)@.gap_markers.push(elapsed),
                ..old(self)@
            }),
    {
        self.gap_markers.push(elapsed);
    }

    /// Frames written from what was still queued when the stream went away.
    pub fn drained(&mut self, frames: u64)
        ensures
            final(self)@ == (RecorderView {
                frames_written: counted(old(self)@.frames_written, frames as nat, u64::MAX as nat),
                ..old(self)@
            }),
    {
        self.add_frames(frames);
    }

    pub fn finish(&self) -> (result: AudioCaptureResult)
        ensures
            result@ == self@.result(),
    {
        AudioCaptureResult {
            frames_written: self.frames_written,
            duration: Duration { nanos: self.frames_written as u128 * FRAME_NANOS },
            gap_markers: copied_spans(&self.gap_markers),
            peak_level: self.peak_level,
            written_peak_level: self.written_peak_level,
            peak_is_trustworthy: self.metered_anything || self.frames_written > 0,
        }
    }
}

/// A chunk of audio as it was metered and written.
pub struct ChunkView {
    pub frames: nat,
    pub wrote: bool,
    pub level: Level,
    pub written_peak: Level,
}

/// How often a run of chunks has the disk reported.
pub open spec fn reports(recorder: RecorderView, chunks: Seq<ChunkView>) -> nat
    decreases chunks.len(),
{
    if chunks.len() == 0 {
        0
    } else {
        let chunk = chunks[0];
        let after = recorder.took(chunk.frames, chunk.wrote, chunk.level, chunk.written_peak);
        (if recorder.gives_up(chunk.wrote) {
            1nat
        } else {
            0nat
        }) + reports(after, chunks.skip(1))
    }
}

/// An unwritable disk is reported at most once in a recording, however many
/// writes fail; and enough failures in a row do have it reported.
pub proof fn a_dead_disk_is_reported_once(recorder: RecorderView, chunks: Seq<ChunkView>)
    ensures
        reports(recorder, chunks) <= 1,
        recorder.write_failure_reported ==> reports(recorder, chunks) == 0,
        !recorder.write_failure_reported && recorder.write_failures + chunks.len()
            >= WRITE_FAILURE_LIMIT && chunks.len() > 0 && (forall|i: int|
            0 <= i < chunks.len() ==> !(#[trigger] chunks[i]).wrote) ==> reports(recorder, chunks)
            == 1,
    decreases chunks.len(),
{
    if chunks.len() > 0 {
        let chunk = chunks[0];
        let after = recorder.took(chunk.frames, chunk.wrote, chunk.level, chunk.written_peak);
        let rest = chunks.skip(1);
        a_dead_disk_is_reported_once(after, rest);
        if forall|i: int| 0 <= i < chunks.len() ==> !(#[trigger] chunks[i]).wrote {
            assert(!chunks[0].wrote);
            assert forall|i: int| 0 <= i < rest.len() implies !(#[trigger] rest[i]).wrote by {
                assert(rest[i] == chunks[i + 1]);
            }
        }
    }
}

/// Which of the input devices to open.
#[derive(Debug, Clone, Copy, PartialEq, Eq, Structural)]
pub enum InputPick {
    /// The system's default device.
    Default,
    /// The device at this place in the list.
    Named(usize),
    /// The chosen device is not there.
    Missing,
}

/// Picks the chosen microphone, by name, out of the devices that are there, some
/// of which may not tell their name; the system's default when none is chosen. A
/// chosen one that is unplugged is not swapped for another: recording from a
/// different microphone without saying so is worse than refusing.
pub fn pick_input(preferred: &Option<String>, names: &Vec<Option<String>>) -> (pick: InputPick)
    ensures
        match pick {
            InputPick::Default => preferred is None,
            InputPick::Named(at) => {
                &&& preferred is Some
                &&& at < names@.len()
                &&& opt_text(names@[at as int]) == opt_text(*preferred)
                &&& forall|j: int|
                    0 <= j < at ==> opt_text(#[trigger] names@[j]) != opt_text(*preferred)
            },
            InputPick::Missing => {
                &&& preferred is Some
                &&& forall|j: int|
                    0 <= j < names@.len() ==> opt_text(#[trigger] names@[j]) != opt_text(*preferred)
            },
        },
{
    let wanted = match preferred {
        Some(wanted) => wanted,
        None => {
            return InputPick::Default;
        },
    };
    let mut i: usize = 0;
    while i < names.len()
        invariant
            i <= names@.len(),
            *preferred == Some(*wanted),
            forall|j: int| 0 <= j < i ==> opt_text(#[trigger] names@[j]) != opt_text(*preferred),
        decreases names@.len() - i,
    {
        if let Some(name) = &names[i] {
            if same_text(name.as_str(), wanted.as_str()) {
                return InputPick::Named(i);
            }
        }
        i += 1;
    }
    InputPick::Missing
}

/// The microphone to use: a blank choice means the system default.
pub fn chosen_device(preferred: Option<String>) -> (chosen: Option<String>)
    ensures
        match preferred {
            Some(name) => if trim(name@).len() == 0 {
                chosen is None
            } else {
                chosen is Some && (chosen->0)@ == name@
            },
            None => chosen is None,
        },
{
    match preferred {
        Some(name) => {
            let kept = trimmed(&chars_of(name.as_str()));
            if kept.len() == 0 {
                None
            } else {
                Some(name)
            }
        },
        None => None,
    }
}

/// What keeps matching while the same device is in use: the name the user
/// picked, else the system's endpoint id, which survives a rename and tells
/// apart two devices with one name, else the device's own name.
pub open spec fn identity(
    preferred: Option<Seq<char>>,
    endpoint: Option<Seq<char>>,
    name: Seq<char>,
) -> Seq<char> {
    match preferred {
        Some(chosen) => "chosen:"@ + chosen,
        None => match endpoint {
            Some(id) => "endpoint:"@ + id,
            None => "name:"@ + name,
        },
    }
}

pub fn device_identity(preferred: &Option<String>, endpoint: &Option<String>, name: &str) -> (
    id: String)
    ensures
        id@ == identity(
            opt_text(*preferred),
            opt_text(*endpoint),
            name@,
        ),
{
    match preferred {
        Some(chosen) => {
            let mut s = "chosen:".to_owned();
            s.append(chosen.as_str());
            s
        },
        None => match endpoint {
            Some(id) => {
                let mut s = "endpoint:".to_owned();
                s.append(id.as_str());
                s
            },
            None => {
                let mut s = "name:".to_owned();
                s.append(name);
                s
            },
        },
    }
}

/// The identity to switch to, if the device in use is no longer the right one.
pub fn changed_input(
    preferred: &Option<String>,
    endpoint: &Option<String>,
    name: &str,
    current: &str,
) -> (changed: Option<String>)
    ensures
        ({
            let now = identity(
                opt_text(*preferred),
                opt_text(*endpoint),
                name@,
            );
            match changed {
                Some(id) => id@ == now && now != current@,
                None => now == current@,
            }
        }),
{
    let id = device_identity(preferred, endpoint, name);
    if same_text(id.as_str(), current) {
        None
    } else {
        Some(id)
    }
}

/// A microphone the user picked stays the same microphone, whatever becomes of
/// the system's default device.
pub proof fn a_chosen_microphone_does_not_change(
    chosen: Seq<char>,
    endpoint: Option<Seq<char>>,
    other_endpoint: Option<Seq<char>>,
    name: Seq<char>,
    other_name: Seq<char>,
)
    ensures
        identity(Some(chosen), endpoint, name) == identity(
            Some(chosen),
            other_endpoint,
            other_name,
        ),
{
}

/// The line shown when the recording moves to another device.
pub fn switched_to(name: &str) -> (line: String)
    ensures
        line@ == "Switched to "@ + name@,
{
    let mut s = "Switched to ".to_owned();
    s.append(name);
    s
}

/// The line shown when the device stops for good.
pub fn microphone_stopped(error: &CaptureError) -> (line: String)
    ensures
        line@ == "Microphone stopped ("@ + error.words() + ")"@,
{
    let mut s = "Microphone stopped (".to_owned();
    s.append(error.message().as_str());
    s.append(")");
    s
}

/// A chunk that was written adds its frames and clears the count of failures; one
/// that was not adds a failure and no frames. Either way it was metered, and the
/// peaks are the loudest heard.
pub proof fn a_chunk_is_counted_if_it_was_written(
    recorder: RecorderView,
    frames: nat,
    wrote: bool,
    level: Level,
    written_peak: Level,
)
    ensures
        ({
            let after = recorder.took(frames, wrote, level, written_peak);
            &&& wrote && recorder.frames_written + frames <= u64::MAX ==> after.frames_written
                == recorder.frames_written + frames
            &&& wrote ==> after.write_failures == 0
            &&& !wrote ==> after.frames_written == recorder.frames_written
            &&& !wrote && recorder.write_failures < u32::MAX ==> after.write_failures
                == recorder.write_failures + 1
            &&& after.metered_anything
            &&& after.peak_level.bits >= level.bits
            &&& after.peak_level.bits >= recorder.peak_level.bits
            &&& after.peak_level == level || after.peak_level == recorder.peak_level
            &&& after.written_peak_level.bits >= written_peak.bits
            &&& after.written_peak_level.bits >= recorder.written_peak_level.bits
            &&& after.gap_markers == recorder.gap_markers
        }),
{
}

/// A recording lasts as long as its frames, at sixteen thousand a second; its peak
/// can be trusted if anything was metered or written.
pub proof fn a_recording_lasts_as_long_as_its_frames(recorder: Recorder, result: AudioCaptureResult)
    requires
        call_ensures(Recorder::finish, (&recorder,), result),
    ensures
        result@.frames_written == recorder@.frames_written,
        result@.duration.nanos * 16_000 == recorder@.frames_written * 1_000_000_000,
        result@.gap_markers == recorder@.gap_markers,
        result@.peak_level == recorder@.peak_level,
        result@.written_peak_level == recorder@.written_peak_level,
        result@.peak_is_trustworthy <==> recorder@.metered_anything || recorder@.frames_written > 0,
{
    assert(recorder@.frames_written * FRAME_NANOS <= u128::MAX) by (nonlinear_arith)
        requires
            recorder@.frames_written <= u64::MAX,
            FRAME_NANOS == 62_500,
    ;
}

/// Once a stop is asked for the recording goes on long enough to write what is in
/// flight, and then ends; without one it never ends, and is looked after once a
/// second.
pub proof fn a_stop_drains_and_ends(recorder: RecorderView, now: Duration)
    ensures
        recorder.next_turn(now, false) != Turn::Finish,
        recorder.next_turn(now, false) == Turn::Housekeeping <==> now.nanos
            >= recorder.last_housekeeping.nanos + 1_000_000_000,
        recorder.stopping_since is None ==> recorder.next_turn(now, true) == Turn::Continue,
        recorder.stopping_since matches Some(since) ==> (recorder.next_turn(now, true)
            == Turn::Finish <==> now.nanos >= since.nanos + 80_000_000),
        recorder.next_turn(now, true) != Turn::Housekeeping,
        recorder.turned(now, true).stopping_since is Some,
        recorder.stopping_since is Some ==> recorder.turned(now, true).stopping_since
            == recorder.stopping_since,
        recorder.stopping_since is None ==> recorder.turned(now, true).stopping_since == Some(now),
        recorder.turned(now, false).stopping_since == recorder.stopping_since,
        recorder.turned(now, false).frames_written == recorder.frames_written,
{
}

/// A chosen microphone is used or refused, never swapped: where it is there it is
/// the one that is opened, where it is not nothing is, and the default is opened
/// exactly if nothing was chosen.
pub proof fn a_chosen_microphone_is_never_swapped(
    preferred: Option<String>,
    names: Vec<Option<String>>,
    pick: InputPick,
    i: int,
)
    requires
        call_ensures(pick_input, (&preferred, &names), pick),
    ensures
        pick == InputPick::Default <==> preferred is None,
        pick matches InputPick::Named(at) ==> at < names@.len() && opt_text(names@[at as int])
            == opt_text(preferred),
        0 <= i < names@.len() && preferred is Some && opt_text(names@[i]) == opt_text(preferred)
            ==> (pick matches InputPick::Named(at) && at <= i),
{
}

/// A blank choice is no choice, and any other is taken as it is.
pub proof fn a_blank_choice_is_none(preferred: Option<String>, chosen: Option<String>)
    requires
        call_ensures(chosen_device, (preferred,), chosen),
    ensures
        preferred is None ==> chosen is None,
        preferred matches Some(name) ==> (chosen is None <==> trim(name@).len() == 0),
        chosen is Some ==> opt_text(chosen) == opt_text(preferred),
{
}

/// Without a choice, another default device is another microphone; with the same
/// one there is nothing to switch to.
pub proof fn a_new_default_is_switched_to(endpoint: Seq<char>, other: Seq<char>, name: Seq<char>)
    requires
        endpoint != other,
    ensures
        identity(None, Some(endpoint), name) != identity(None, Some(other), name),
        identity(None, Some(endpoint), name) == "endpoint:"@ + endpoint,
        identity(Some(name), Some(endpoint), name) == "chosen:"@ + name,
        identity(None, None, name) == "name:"@ + name,
{
    let lead = "endpoint:"@;
    if lead + endpoint == lead + other {
        assert((lead + endpoint).skip(lead.len() as int) =~= endpoint);
        assert((lead + other).skip(lead.len() as int) =~= other);
    }
}

/// A microphone is switched exactly if what identifies it has changed.
pub proof fn a_microphone_is_switched_when_it_changed(
    preferred: Option<String>,
    endpoint: Option<String>,
    name: &str,
    current: &str,
    changed: Option<String>,
)
    requires
        call_ensures(changed_input, (&preferred, &endpoint, name, current), changed),
    ensures
        ({
            let now = identity(opt_text(preferred), opt_text(endpoint), name@);
            &&& changed is Some <==> now != current@
            &&& changed matches Some(id) ==> id@ == now
        }),
{
}

/// The fifth write in a row that fails is reported, unless one was before.
pub proof fn the_fifth_failure_is_reported(recorder: RecorderView, wrote: bool)
    ensures
        recorder.gives_up(wrote) <==> !wrote && recorder.write_failures >= 4
            && !recorder.write_failure_reported,
{
}

} // verus!
