//! How loud it is, and how loud the room is.
//!
//! Loudness is measured in floating point by the program. Here it is only ever
//! compared, so a reading is held as its place in the order of the floating
//! point numbers: the place of a greater number is greater.

use vstd::prelude::*;

verus! {

/// A metered level between 0 and 1: the bits of a single-precision number that
/// is not negative.
#[derive(Debug, Clone, Copy, PartialEq, Eq, Structural)]
pub struct Level {
    pub bits: u32,
}

impl Level {
    pub open spec fn of(bits: u32) -> Level {
        Level { bits }
    }

    pub fn from_bits(bits: u32) -> (level: Self)
        ensures
            level == Level::of(bits),
    {
        Level { bits }
    }
}

/// The bits of the level 0.
pub const LEVEL_ZERO: u32 = 0;

/// The bits of the level 1.
pub const LEVEL_FULL: u32 = 0x3F80_0000;

/// A reading in decibels: the bits of a double-precision number as a signed
/// integer, those of a negative one with all bits but the sign inverted.
#[derive(Debug, Clone, Copy, PartialEq, Eq, Structural)]
pub struct Decibels {
    pub key: i64,
}

impl Decibels {
    pub fn from_key(key: i64) -> (db: Self)
        ensures
            db.key == key,
    {
        Decibels { key }
    }
}

/// The place of -120 dBFS, the bottom of the scale: quieter than any real
/// microphone.
pub const FLOOR_DBFS: i64 = -4638144666238189569;

/// How many readings lie below `bound`.
pub open spec fn below(readings: Seq<Decibels>, bound: int) -> nat
    decreases readings.len(),
{
    if readings.len() == 0 {
        0
    } else {
        below(readings.drop_last(), bound) + (if readings.last().key < bound {
            1nat
        } else {
            0nat
        })
    }
}

/// Whether `value` is what stands at position `k` once the readings are sorted:
/// at most `k` lie below it, and more than `k` at or below it.
pub open spec fn ranks_at(readings: Seq<Decibels>, k: nat, value: Decibels) -> bool {
    &&& below(readings, value.key as int) <= k
    &&& k < below(readings, value.key + 1)
}

/// What stands at position `k` once the readings are sorted.
pub open spec fn ranked(readings: Seq<Decibels>, k: nat) -> Decibels {
    choose|value: Decibels| ranks_at(readings, k, value)
}

proof fn lemma_below_grows(readings: Seq<Decibels>, a: int, b: int)
    requires
        a <= b,
    ensures
        below(readings, a) <= below(readings, b) <= readings.len(),
    decreases readings.len(),
{
    if readings.len() > 0 {
        lemma_below_grows(readings.drop_last(), a, b);
    }
}

proof fn lemma_below_skips_gaps(readings: Seq<Decibels>, a: int, b: int)
    requires
        a <= b,
        forall|i: int|
            0 <= i < readings.len() ==> (#[trigger] readings[i]).key < a || readings[i].key >= b,
    ensures
        below(readings, a) == below(readings, b),
    decreases readings.len(),
{
    if readings.len() > 0 {
        let rest = readings.drop_last();
        assert forall|i: int| 0 <= i < rest.len() implies (#[trigger] rest[i]).key < a
            || rest[i].key >= b by {
            assert(rest[i] == readings[i]);
        }
        lemma_below_skips_gaps(rest, a, b);
        assert(readings[readings.len() - 1].key < a || readings[readings.len() - 1].key >= b);
    }
}

proof fn lemma_below_all(readings: Seq<Decibels>, bound: int)
    requires
        forall|i: int| 0 <= i < readings.len() ==> readings[i].key < bound,
    ensures
        below(readings, bound) == readings.len(),
    decreases readings.len(),
{
    if readings.len() > 0 {
        let rest = readings.drop_last();
        assert forall|i: int| 0 <= i < rest.len() implies rest[i].key < bound by {
            assert(rest[i] == readings[i]);
        }
        lemma_below_all(rest, bound);
        assert(readings[readings.len() - 1].key < bound);
    }
}

/// The largest reading below `bound`, which exists if any lies below it.
proof fn lemma_largest_below(readings: Seq<Decibels>, bound: int) -> (at: int)
    requires
        below(readings, bound) > 0,
    ensures
        0 <= at < readings.len(),
        readings[at].key < bound,
        forall|i: int|
            0 <= i < readings.len() && readings[i].key < bound ==> readings[i].key
                <= readings[at].key,
    decreases readings.len(),
{
    let rest = readings.drop_last();
    let last = readings.last();
    if below(rest, bound) == 0 {
        assert forall|i: int|
            0 <= i < readings.len() && readings[i].key < bound implies readings[i].key
            <= last.key by {
            if i < rest.len() {
                lemma_one_below(rest, bound, i);
            }
        }
        readings.len() - 1
    } else {
        let at = lemma_largest_below(rest, bound);
        assert(rest[at] == readings[at]);
        if last.key < bound && last.key > readings[at].key {
            assert forall|i: int|
                0 <= i < readings.len() && readings[i].key < bound implies readings[i].key
                <= last.key by {
                if i < rest.len() {
                    assert(rest[i] == readings[i]);
                }
            }
            readings.len() - 1
        } else {
            assert forall|i: int|
                0 <= i < readings.len() && readings[i].key < bound implies readings[i].key
                <= readings[at].key by {
                if i < rest.len() {
                    assert(rest[i] == readings[i]);
                }
            }
            at
        }
    }
}

proof fn lemma_one_below(readings: Seq<Decibels>, bound: int, i: int)
    requires
        0 <= i < readings.len(),
        readings[i].key < bound,
    ensures
        below(readings, bound) > 0,
    decreases readings.len(),
{
    if i < readings.len() - 1 {
        lemma_one_below(readings.drop_last(), bound, i);
    }
}

/// Only one value ranks at a position.
pub proof fn a_rank_has_one_value(readings: Seq<Decibels>, k: nat, a: Decibels, b: Decibels)
    requires
        ranks_at(readings, k, a),
        ranks_at(readings, k, b),
    ensures
        a == b,
{
    if a.key < b.key {
        lemma_below_grows(readings, a.key + 1, b.key as int);
    } else if b.key < a.key {
        lemma_below_grows(readings, b.key + 1, a.key as int);
    }
}

fn count_below(readings: &Vec<Decibels>, bound: i128) -> (count: usize)
    ensures
        count == below(readings@, bound as int),
        count <= readings@.len(),
{
    let mut count: usize = 0;
    let mut i: usize = 0;
    while i < readings.len()
        invariant
            i <= readings@.len(),
            count <= i,
            count == below(readings@.take(i as int), bound as int),
        decreases readings@.len() - i,
    {
        assert(readings@.take(i + 1).drop_last() == readings@.take(i as int));
        if (readings[i].key as i128) < bound {
            count += 1;
        }
        i += 1;
    }
    assert(readings@.take(readings@.len() as int) == readings@);
    count
}

/// The value at position `k` of the sorted readings.
fn rank(readings: &Vec<Decibels>, k: usize) -> (value: Decibels)
    requires
        k < readings@.len(),
    ensures
        ranks_at(readings@, k as nat, value),
{
    let mut best: Option<Decibels> = None;
    let mut i: usize = 0;
    while i < readings.len()
        invariant
            i <= readings@.len(),
            best matches Some(b) ==> k < below(readings@, b.key + 1),
            forall|j: int|
                0 <= j < i && k < below(readings@, readings@[j].key + 1) ==> best is Some && (
                best->0).key <= readings@[j].key,
        decreases readings@.len() - i,
    {
        let here = readings[i];
        if count_below(readings, here.key as i128 + 1) > k {
            let better = match best {
                Some(b) => here.key < b.key,
                None => true,
            };
            if better {
                best = Some(here);
            }
        }
        i += 1;
    }
    proof {
        // The loudest reading qualifies, so there is a best one.
        lemma_below_all(readings@, i64::MAX + 1);
        let at = lemma_largest_below(readings@, i64::MAX + 1);
        lemma_below_all(readings@, readings@[at].key + 1);
        assert(best is Some);
        let b = best->0;
        if below(readings@, b.key as int) > k {
            let u = lemma_largest_below(readings@, b.key as int);
            lemma_below_skips_gaps(readings@, readings@[u].key + 1, b.key as int);
        }
    }
    match best {
        Some(b) => b,
        None => Decibels { key: FLOOR_DBFS },
    }
}

/// Below this many samples the percentile is meaningless.
pub const MINIMUM_SAMPLES: usize = 8;

/// About a minute of samples at the usual rate: a floor from nine minutes ago is
/// not this room any more.
pub const DEFAULT_CAPACITY: usize = 600;

/// Where the quietest tenth of `count` samples ends, rounded half up.
pub open spec fn tenth_of(count: int) -> int {
    (count - 1 + 5) / 10
}

/// Listens to a session and knows how loud its room is.
#[derive(Debug)]
pub struct NoiseFloorEstimator {
    pub capacity: usize,
    pub samples: Vec<Decibels>,
    pub peak: Decibels,
    pub count: usize,
}

/// What an estimator has heard.
pub struct HeardView {
    pub capacity: nat,
    pub samples: Seq<Decibels>,
    pub peak: Decibels,
    pub count: nat,
}

impl View for NoiseFloorEstimator {
    type V = HeardView;

    open spec fn view(&self) -> HeardView {
        HeardView {
            capacity: self.capacity as nat,
            samples: self.samples@,
            peak: self.peak,
            count: self.count as nat,
        }
    }
}

impl HeardView {
    /// A fresh estimator over the last `capacity` samples.
    pub open spec fn fresh(capacity: nat) -> HeardView {
        HeardView {
            capacity: if capacity < MINIMUM_SAMPLES {
                MINIMUM_SAMPLES as nat
            } else {
                capacity
            },
            samples: Seq::empty(),
            peak: Decibels { key: FLOOR_DBFS },
            count: 0,
        }
    }

    /// The window is never over-full and can always hold a usable percentile.
    pub open spec fn well_formed(self) -> bool {
        &&& self.samples.len() <= self.capacity
        &&& self.capacity >= MINIMUM_SAMPLES
    }

    /// After one more sample: the oldest one makes room in a full window, and
    /// the peak is that of the whole session.
    pub open spec fn heard(self, db: Decibels) -> HeardView {
        HeardView {
            capacity: self.capacity,
            samples: (if self.samples.len() == self.capacity {
                self.samples.skip(1)
            } else {
                self.samples
            }).push(db),
            peak: if db.key > self.peak.key {
                db
            } else {
                self.peak
            },
            count: if self.count < usize::MAX {
                self.count + 1
            } else {
                self.count
            },
        }
    }

    /// Whether `floor` is the room: the tenth percentile of the window, known
    /// once there are enough samples.
    pub open spec fn floor_is(self, floor: Option<Decibels>) -> bool {
        match floor {
            Some(db) => self.samples.len() >= MINIMUM_SAMPLES && ranks_at(
                self.samples,
                tenth_of(self.samples.len() as int) as nat,
                db,
            ),
            None => self.samples.len() < MINIMUM_SAMPLES,
        }
    }

    /// The room, once it is known.
    pub open spec fn floor(self) -> Option<Decibels> {
        if self.samples.len() < MINIMUM_SAMPLES {
            None
        } else {
            Some(ranked(self.samples, tenth_of(self.samples.len() as int) as nat))
        }
    }
}

impl Default for NoiseFloorEstimator {
    fn default() -> (estimator: Self)
        ensures
            estimator@ == HeardView::fresh(DEFAULT_CAPACITY as nat),
            estimator@.well_formed(),
    {
        Self::with_capacity(DEFAULT_CAPACITY)
    }
}

impl NoiseFloorEstimator {
    pub fn with_capacity(capacity: usize) -> (estimator: Self)
        ensures
            estimator@ == HeardView::fresh(capacity as nat),
            estimator@.well_formed(),
    {
        let capacity = if capacity < MINIMUM_SAMPLES {
            MINIMUM_SAMPLES
        } else {
            capacity
        };
        NoiseFloorEstimator {
            capacity,
            samples: Vec::new(),
            peak: Decibels { key: FLOOR_DBFS },
            count: 0,
        }
    }

    pub fn ingest(&mut self, db: Decibels)
        requires
            old(self)@.well_formed(),
        ensures
            final(self)@ == old(self)@.heard(db),
            final(self)@.well_formed(),
    {
        if db.key > self.peak.key {
            self.peak = db;
        }
        if self.count < usize::MAX {
            self.count += 1;
        }
        if self.samples.len() == self.capacity {
            let _ = self.samples.remove(0);
            assert(self.samples@ == old(self).samples@.skip(1));
        }
        self.samples.push(db);
    }

    pub fn peak_db(&self) -> (peak: Decibels)
        ensures
            peak == self@.peak,
    {
        self.peak
    }

    pub fn sample_count(&self) -> (count: usize)
        ensures
            count == self@.count,
    {
        self.count
    }

    /// The room: the tenth percentile of the window.
    ///
    /// A rolling low percentile rather than the head of the recording: audio
    /// starts the instant the key goes down, when a fast user is already
    /// speaking. Speech is intermittent, so the percentile converges on the
    /// floor within a second or two.
    pub fn floor_db(&self) -> (floor: Option<Decibels>)
        requires
            self@.well_formed(),
        ensures
            self@.floor_is(floor),
            floor == self@.floor(),
    {
        if self.samples.len() < MINIMUM_SAMPLES {
            return None;
        }
        let n: usize = self.samples.len() - 1;
        let k: usize = n / 10 + (if n % 10 >= 5 {
            1
        } else {
            0
        });
        assert(k == tenth_of(self.samples@.len() as int));
        let floor = rank(&self.samples, k);
        proof {
            a_rank_has_one_value(self.samples@, k as nat, floor, self@.floor()->0);
        }
        Some(floor)
    }

    /// The peak and the floor, whose distance is a lower bound on how far speech
    /// rose above the room; known once the floor is.
    pub fn measured_snr(&self) -> (pair: Option<(Decibels, Decibels)>)
        requires
            self@.well_formed(),
        ensures
            match pair {
                Some((peak, floor)) => peak == self@.peak && self@.floor() == Some(floor),
                None => self@.floor() is None,
            },
    {
        match self.floor_db() {
            Some(floor) => Some((self.peak, floor)),
            None => None,
        }
    }
}

/// The peak is a high-water mark: no later sample lowers it, and it is at least
/// every sample heard.
pub proof fn the_peak_never_falls(heard: HeardView, db: Decibels)
    ensures
        heard.heard(db).peak.key >= heard.peak.key,
        heard.heard(db).peak.key >= db.key,
{
}

/// A room is one reading: whatever reports the floor reports the same.
pub proof fn the_floor_is_unique(heard: HeardView, a: Option<Decibels>, b: Option<Decibels>)
    requires
        heard.floor_is(a),
        heard.floor_is(b),
    ensures
        a == b,
{
    if a is Some && b is Some {
        a_rank_has_one_value(
            heard.samples,
            tenth_of(heard.samples.len() as int) as nat,
            a->0,
            b->0,
        );
    }
}

/// The room is a reading that was heard, and is known from eight readings on: at
/// most a tenth of the others, to the nearest one, lie below it.
pub proof fn the_room_is_a_reading(heard: HeardView, floor: Option<Decibels>)
    requires
        heard.floor_is(floor),
    ensures
        floor is Some <==> heard.samples.len() >= 8,
        floor matches Some(db) ==> heard.samples.contains(db) && 10 * below(
            heard.samples,
            db.key as int,
        ) <= heard.samples.len() + 4 && 10 * below(heard.samples, db.key + 1)
            >= heard.samples.len(),
{
    if floor is Some {
        let db = floor->0;
        lemma_between(heard.samples, db.key as int);
        let i = choose|i: int| 0 <= i < heard.samples.len() && heard.samples[i].key == db.key;
        assert(heard.samples[i] == db);
    }
}

proof fn lemma_between(readings: Seq<Decibels>, key: int)
    ensures
        below(readings, key) < below(readings, key + 1) ==> exists|i: int|
            0 <= i < readings.len() && (#[trigger] readings[i]).key == key,
    decreases readings.len(),
{
    if readings.len() > 0 {
        let rest = readings.drop_last();
        lemma_between(rest, key);
        if readings.last().key == key {
            assert(readings[readings.len() - 1].key == key);
        } else if below(readings, key) < below(readings, key + 1) {
            let i = choose|i: int| 0 <= i < rest.len() && (#[trigger] rest[i]).key == key;
            assert(readings[i].key == key);
        }
    }
}

/// Every reading counts once, on its side of the bound.
pub proof fn readings_are_counted_one_by_one(readings: Seq<Decibels>, db: Decibels, bound: int)
    ensures
        below(readings.push(db), bound) == below(readings, bound) + (if db.key < bound {
            1nat
        } else {
            0nat
        }),
        below(Seq::empty(), bound) == 0,
{
    assert(readings.push(db).drop_last() =~= readings);
}

/// A full window lets the oldest reading go; otherwise all of them stay, and the
/// newest is always the last.
pub proof fn the_window_slides(heard: HeardView, db: Decibels)
    requires
        heard.well_formed(),
    ensures
        ({
            let after = heard.heard(db);
            &&& after.samples.last() == db
            &&& heard.samples.len() < heard.capacity ==> after.samples.drop_last() == heard.samples
            &&& heard.samples.len() == heard.capacity ==> after.samples.drop_last()
                == heard.samples.skip(1)
            &&& after.capacity == heard.capacity
            &&& after.peak == db || after.peak == heard.peak
            &&& heard.count < usize::MAX ==> after.count == heard.count + 1
        }),
        HeardView::fresh(600).capacity == 600,
        HeardView::fresh(0).capacity == 8,
        HeardView::fresh(600).samples.len() == 0,
{
    let kept = if heard.samples.len() == heard.capacity {
        heard.samples.skip(1)
    } else {
        heard.samples
    };
    assert(kept.push(db).drop_last() =~= kept);
}

/// What is measured is the peak against the room, once the room is known.
pub proof fn the_peak_is_measured_against_the_room(
    estimator: NoiseFloorEstimator,
    pair: Option<(Decibels, Decibels)>,
)
    requires
        estimator@.well_formed(),
        call_ensures(NoiseFloorEstimator::measured_snr, (&estimator,), pair),
    ensures
        pair is Some <==> estimator@.samples.len() >= 8,
        pair matches Some((peak, floor)) ==> peak == estimator.peak && estimator@.floor() == Some(
            floor,
        ),
{
}

/// The room stands a tenth of the way up the sorted readings, to the nearest
/// place, a half rounding up.
pub proof fn the_room_is_a_tenth_of_the_way_up(heard: HeardView, db: Decibels, k: nat)
    requires
        heard.floor_is(Some(db)),
        10 * k - 5 <= heard.samples.len() - 1 <= 10 * k + 4,
    ensures
        below(heard.samples, db.key as int) <= k < below(heard.samples, db.key + 1),
{
}

} // verus!
