//! How the words reach the cursor: a ladder with two guards.
//!
//! ```text
//!   guard 1: foreground app changed since dictation started -> never paste blind
//!            (text goes to the clipboard; the pill offers it)
//!   guard 2: a password field has focus -> refuse entirely, no clipboard leak
//!
//!   tier 1: synthetic typing into a proven text control (no clipboard)
//!   tier 2: clipboard and synthesized Ctrl+V with guarded restore
//!   tier 3: text left on the clipboard, visible hint
//! ```
//!
//! The ladder asks one thing of the desktop at a time and is told how it went.

use vstd::prelude::*;

use crate::transcription::DictationContext;
use crate::win32::{FocusKind, MAX_TYPED_CHARS};

verus! {

/// How many nanoseconds the clipboard keeps the transcript before the user's own
/// contents go back. Slow applications read the clipboard late; restoring too
/// early pastes the user's old clipboard.
pub const RESTORE_DELAY: u128 = 1_000_000_000;

#[derive(Debug, Clone, Copy, PartialEq, Eq, Structural)]
pub enum InsertionOutcome {
    Inserted,
    FrontmostChanged,
    FellBackToClipboard,
    /// A password field had focus: the text stays in History, never on the
    /// clipboard.
    BlockedSecureField,
}

pub open spec fn moved(target: Option<u32>, foreground: Option<u32>) -> bool {
    target matches Some(expected) && (foreground matches Some(current) && current != expected)
}

/// True when the foreground process is provably not the one the user was
/// dictating into. An unknown process on either side is not a move: the cost of
/// a false alarm is a chip the user has to click, every time.
pub fn moved_away(context: &DictationContext, foreground: Option<u32>) -> (away: bool)
    ensures
        away == moved(context@.target_pid, foreground),
{
    match context.target_pid {
        Some(expected) => match foreground {
            Some(current) => current != expected,
            None => false,
        },
        None => false,
    }
}

/// How far up the ladder an insertion is: what it waits to be told.
#[derive(Debug, Clone, Copy, PartialEq, Eq, Structural)]
pub enum Rung {
    /// What has focus, for the password guard.
    Guard,
    /// Which process is in front.
    Target,
    /// What has focus, for typing.
    Control,
    /// Whether the text was typed.
    Typing,
    /// Which process is in front now: looking at the focus takes a while, and a
    /// window switch meanwhile would land the paste in the wrong place.
    Recheck,
    /// Whether the text is on the clipboard.
    Writing,
    /// Whether Ctrl+V was posted.
    Posting,
    Over,
}

/// What the desktop reports.
#[derive(Debug, Clone, Copy, PartialEq, Eq, Structural)]
pub enum Report {
    Focus(FocusKind),
    Foreground(Option<u32>),
    Typed(bool),
    /// The clipboard's sequence number after the write, if it succeeded.
    Written(Option<u32>),
    Posted(bool),
}

/// What the ladder asks for.
#[derive(Debug, Clone, Copy, PartialEq, Eq, Structural)]
pub enum Request {
    QueryFocus,
    QueryForeground,
    Type,
    /// Take a snapshot of the clipboard and put the text on it.
    WriteClipboard,
    PostPaste,
    /// The insertion is over. With `copy` the text is put on the clipboard to
    /// stay; with `restore` the snapshot goes back after a while, if the
    /// clipboard's sequence number is still this one.
    Finish { outcome: InsertionOutcome, copy: bool, restore: Option<u32> },
}

pub open spec fn over(outcome: InsertionOutcome, copy: bool, restore: Option<u32>) -> (
    Rung,
    Request,
) {
    (Rung::Over, Request::Finish { outcome, copy, restore })
}

/// What a rung asks for.
pub open spec fn waits_for(rung: Rung) -> Request {
    match rung {
        Rung::Guard => Request::QueryFocus,
        Rung::Target => Request::QueryForeground,
        Rung::Control => Request::QueryFocus,
        Rung::Typing => Request::Type,
        Rung::Recheck => Request::QueryForeground,
        Rung::Writing => Request::WriteClipboard,
        Rung::Posting => Request::PostPaste,
        Rung::Over => Request::Finish {
            outcome: InsertionOutcome::FellBackToClipboard,
            copy: false,
            restore: None,
        },
    }
}

pub open spec fn at(rung: Rung) -> (Rung, Request) {
    (rung, waits_for(rung))
}

/// The ladder. `typeable` says that the text is short enough to type. A report
/// that the rung does not wait for leaves it waiting.
pub open spec fn climb(
    rung: Rung,
    typeable: bool,
    target: Option<u32>,
    report: Report,
) -> (Rung, Request) {
    match (rung, report) {
        (Rung::Guard, Report::Focus(kind)) => if kind == FocusKind::Password {
            over(InsertionOutcome::BlockedSecureField, false, None)
        } else {
            at(Rung::Target)
        },
        (Rung::Target, Report::Foreground(pid)) => if moved(target, pid) {
            over(InsertionOutcome::FrontmostChanged, true, None)
        } else if typeable {
            at(Rung::Control)
        } else {
            at(Rung::Recheck)
        },
        (Rung::Control, Report::Focus(kind)) => if kind == FocusKind::Password {
            over(InsertionOutcome::BlockedSecureField, false, None)
        } else if kind == FocusKind::EditableText {
            at(Rung::Typing)
        } else {
            at(Rung::Recheck)
        },
        (Rung::Typing, Report::Typed(typed)) => if typed {
            over(InsertionOutcome::Inserted, false, None)
        } else {
            at(Rung::Recheck)
        },
        (Rung::Recheck, Report::Foreground(pid)) => if moved(target, pid) {
            over(InsertionOutcome::FrontmostChanged, true, None)
        } else {
            at(Rung::Writing)
        },
        (Rung::Writing, Report::Written(sequence)) => match sequence {
            Some(_) => at(Rung::Posting),
            None => over(InsertionOutcome::FellBackToClipboard, true, None),
        },
        (Rung::Posting, Report::Posted(posted)) => if posted {
            over(InsertionOutcome::Inserted, false, None)
        } else {
            over(InsertionOutcome::FellBackToClipboard, true, None)
        },
        _ => at(rung),
    }
}

/// One insertion on its way up the ladder.
#[derive(Debug, Clone, Copy, PartialEq, Eq, Structural)]
pub struct InsertionCoordinator {
    pub rung: Rung,
    pub typeable: bool,
    pub target: Option<u32>,
    /// The clipboard's sequence number after the transcript was written.
    pub sequence: Option<u32>,
}

/// What a report does to an insertion, and what is asked for next. The sequence
/// number of the write is kept for the clipboard's return.
pub open spec fn reported(c: InsertionCoordinator, report: Report) -> (
    InsertionCoordinator,
    Request,
) {
    let next = climb(c.rung, c.typeable, c.target, report);
    (
        InsertionCoordinator {
            rung: next.0,
            typeable: c.typeable,
            target: c.target,
            sequence: match (c.rung, report) {
                (Rung::Writing, Report::Written(sequence)) => sequence,
                _ => c.sequence,
            },
        },
        match (c.rung, report) {
            (Rung::Posting, Report::Posted(true)) => Request::Finish {
                outcome: InsertionOutcome::Inserted,
                copy: false,
                restore: c.sequence,
            },
            _ => next.1,
        },
    )
}

impl InsertionCoordinator {
    /// Nothing to insert yet.
    pub fn new() -> (c: Self)
        ensures
            c == (InsertionCoordinator {
                rung: Rung::Over,
                typeable: false,
                target: None,
                sequence: None,
            }),
    {
        InsertionCoordinator { rung: Rung::Over, typeable: false, target: None, sequence: None }
    }

    /// Starts to insert `text`.
    pub fn insert(&mut self, text: &str, context: &DictationContext) -> (request: Request)
        ensures
            *final(self) == (InsertionCoordinator {
                rung: Rung::Guard,
                typeable: text@.len() <= MAX_TYPED_CHARS,
                target: context@.target_pid,
                sequence: None,
            }),
            request == Request::QueryFocus,
    {
        self.rung = Rung::Guard;
        self.typeable = crate::text::chars_of(text).len() <= MAX_TYPED_CHARS;
        self.target = context.target_pid;
        self.sequence = None;
        Request::QueryFocus
    }

    /// Takes a report and says what to do next.
    pub fn report(&mut self, report: Report) -> (request: Request)
        ensures
            (*final(self), request) == reported(*old(self), report),
    {
        let request = match (self.rung, report) {
            (Rung::Guard, Report::Focus(kind)) => {
                // On the clipboard it would leak to every clipboard reader.
                if kind == FocusKind::Password {
                    self.finish(InsertionOutcome::BlockedSecureField, false, None)
                } else {
                    self.rung = Rung::Target;
                    Request::QueryForeground
                }
            },
            (Rung::Target, Report::Foreground(pid)) => {
                if self.has_moved(pid) {
                    self.finish(InsertionOutcome::FrontmostChanged, true, None)
                } else if self.typeable {
                    self.rung = Rung::Control;
                    Request::QueryFocus
                } else {
                    self.rung = Rung::Recheck;
                    Request::QueryForeground
                }
            },
            (Rung::Control, Report::Focus(kind)) => {
                // Focus can move into a password field between the two looks.
                if kind == FocusKind::Password {
                    self.finish(InsertionOutcome::BlockedSecureField, false, None)
                } else if kind == FocusKind::EditableText {
                    self.rung = Rung::Typing;
                    Request::Type
                } else {
                    self.rung = Rung::Recheck;
                    Request::QueryForeground
                }
            },
            (Rung::Typing, Report::Typed(typed)) => {
                if typed {
                    self.finish(InsertionOutcome::Inserted, false, None)
                } else {
                    self.rung = Rung::Recheck;
                    Request::QueryForeground
                }
            },
            (Rung::Recheck, Report::Foreground(pid)) => {
                if self.has_moved(pid) {
                    self.finish(InsertionOutcome::FrontmostChanged, true, None)
                } else {
                    self.rung = Rung::Writing;
                    Request::WriteClipboard
                }
            },
            (Rung::Writing, Report::Written(sequence)) => {
                self.sequence = sequence;
                if sequence.is_some() {
                    self.rung = Rung::Posting;
                    Request::PostPaste
                } else {
                    self.finish(InsertionOutcome::FellBackToClipboard, true, None)
                }
            },
            (Rung::Posting, Report::Posted(posted)) => {
                // Posted is not delivered: there is no receipt for a synthetic
                // paste. The text also stays recoverable in History.
                if posted {
                    let sequence = self.sequence;
                    self.finish(InsertionOutcome::Inserted, false, sequence)
                } else {
                    self.finish(InsertionOutcome::FellBackToClipboard, true, None)
                }
            },
            (Rung::Guard, _) => Request::QueryFocus,
            (Rung::Target, _) => Request::QueryForeground,
            (Rung::Control, _) => Request::QueryFocus,
            (Rung::Typing, _) => Request::Type,
            (Rung::Recheck, _) => Request::QueryForeground,
            (Rung::Writing, _) => Request::WriteClipboard,
            (Rung::Posting, _) => Request::PostPaste,
            (Rung::Over, _) => Request::Finish {
                outcome: InsertionOutcome::FellBackToClipboard,
                copy: false,
                restore: None,
            },
        };
        request
    }

    fn has_moved(&self, foreground: Option<u32>) -> (away: bool)
        ensures
            away == moved(self.target, foreground),
    {
        match self.target {
            Some(expected) => match foreground {
                Some(current) => current != expected,
                None => false,
            },
            None => false,
        }
    }

    fn finish(&mut self, outcome: InsertionOutcome, copy: bool, restore: Option<u32>) -> (
        request: Request)
        ensures
            *final(self) == (InsertionCoordinator { rung: Rung::Over, ..*old(self) }),
            request == (Request::Finish { outcome, copy, restore }),
    {
        self.rung = Rung::Over;
        Request::Finish { outcome, copy, restore }
    }
}

/// Whether the user's clipboard goes back: only if there was something on it and
/// nothing else has touched it since the transcript was written. A user's copy
/// mid-flight wins.
pub fn may_restore(written: u32, current: u32, snapshot_is_empty: bool) -> (yes: bool)
    ensures
        yes == (written == current && !snapshot_is_empty),
{
    written == current && !snapshot_is_empty
}

/// Where a run of reports takes an insertion, and everything it asks for on the
/// way.
pub open spec fn run(
    rung: Rung,
    typeable: bool,
    target: Option<u32>,
    reports: Seq<Report>,
) -> (Rung, Seq<Request>)
    decreases reports.len(),
{
    if reports.len() == 0 {
        (rung, Seq::empty())
    } else {
        let before = run(rung, typeable, target, reports.drop_last());
        let next = climb(before.0, typeable, target, reports.last());
        (next.0, before.1.push(next.1))
    }
}

/// A request that puts the text on the clipboard.
pub open spec fn touches_clipboard(request: Request) -> bool {
    match request {
        Request::WriteClipboard => true,
        Request::Finish { copy, .. } => copy,
        _ => false,
    }
}

/// A request that puts the text somewhere before the insertion is over.
pub open spec fn lands(request: Request) -> bool {
    request == Request::Type || request == Request::WriteClipboard || request == Request::PostPaste
}

proof fn lemma_guards_only_look(typeable: bool, target: Option<u32>, reports: Seq<Report>, i: int)
    requires
        ({
            let rung = run(Rung::Guard, typeable, target, reports).0;
            rung is Guard || rung is Target || rung is Control
        }),
        0 <= i < run(Rung::Guard, typeable, target, reports).1.len(),
    ensures
        ({
            let request = run(Rung::Guard, typeable, target, reports).1[i];
            !touches_clipboard(request) && !lands(request)
        }),
    decreases reports.len(),
{
    let before = run(Rung::Guard, typeable, target, reports.drop_last());
    if i < before.1.len() {
        lemma_guards_only_look(typeable, target, reports.drop_last(), i);
    }
}

/// Where a password field is found in focus, at either of the two looks, the text
/// never reaches the clipboard or the keyboard, whatever is reported afterwards.
pub proof fn a_password_field_sees_nothing(
    typeable: bool,
    target: Option<u32>,
    reports: Seq<Report>,
    k: int,
)
    requires
        0 <= k < reports.len(),
        waits_for(run(Rung::Guard, typeable, target, reports.take(k)).0) == Request::QueryFocus,
        reports[k] == Report::Focus(FocusKind::Password),
    ensures
        run(Rung::Guard, typeable, target, reports).0 == Rung::Over,
        forall|i: int|
            0 <= i < run(Rung::Guard, typeable, target, reports).1.len() ==> {
                let request = #[trigger] run(Rung::Guard, typeable, target, reports).1[i];
                !touches_clipboard(request) && !lands(request)
            },
    decreases reports.len(),
{
    let rest = reports.drop_last();
    let before = run(Rung::Guard, typeable, target, rest);
    let all = run(Rung::Guard, typeable, target, reports);
    if k < rest.len() {
        assert(rest.take(k) == reports.take(k));
        a_password_field_sees_nothing(typeable, target, rest, k);
    } else {
        assert(rest == reports.take(k));
    }
    assert forall|i: int| 0 <= i < all.1.len() implies ({
        let request = #[trigger] all.1[i];
        !touches_clipboard(request) && !lands(request)
    }) by {
        if i < before.1.len() {
            assert(all.1[i] == before.1[i]);
            if k == rest.len() {
                lemma_guards_only_look(typeable, target, rest, i);
            }
        }
    }
}

/// Nothing is typed or pasted once the user has provably moved away: the step
/// that sees the move ends the ladder, and the text waits on the clipboard.
pub proof fn nothing_is_pasted_blind(
    rung: Rung,
    typeable: bool,
    target: Option<u32>,
    foreground: Option<u32>,
)
    requires
        rung == Rung::Target || rung == Rung::Recheck,
        moved(target, foreground),
    ensures
        climb(rung, typeable, target, Report::Foreground(foreground)) == over(
            InsertionOutcome::FrontmostChanged,
            true,
            None,
        ),
{
}

/// Ctrl+V is only ever posted after a look at the foreground and a successful
/// write of the text.
pub proof fn a_paste_needs_both_guards(
    rung: Rung,
    typeable: bool,
    target: Option<u32>,
    report: Report,
)
    requires
        climb(rung, typeable, target, report).0 == Rung::Posting,
        rung != Rung::Posting,
    ensures
        rung == Rung::Writing,
        report matches Report::Written(Some(_)),
{
}

/// The clipboard is only written once the foreground is known not to have moved.
pub proof fn a_write_needs_an_unmoved_foreground(
    rung: Rung,
    typeable: bool,
    target: Option<u32>,
    report: Report,
)
    requires
        climb(rung, typeable, target, report).0 == Rung::Writing,
        rung != Rung::Writing,
    ensures
        rung == Rung::Recheck,
        report matches Report::Foreground(pid) && !moved(target, pid),
{
}

/// The focus was looked at and no password field had it.
pub open spec fn open_field(report: Report) -> bool {
    report matches Report::Focus(kind) && kind != FocusKind::Password
}

/// The foreground was looked at and had not moved.
pub open spec fn stayed(target: Option<u32>, report: Report) -> bool {
    report matches Report::Foreground(pid) && !moved(target, pid)
}

proof fn lemma_guards_passed(typeable: bool, target: Option<u32>, reports: Seq<Report>)
    ensures
        ({
            let rung = run(Rung::Guard, typeable, target, reports).0;
            &&& !(rung is Guard || rung is Over) ==> exists|k: int|
                0 <= k < reports.len() && open_field(#[trigger] reports[k])
            &&& !(rung is Guard || rung is Target || rung is Over) ==> exists|k: int, j: int|
                0 <= k < j < reports.len() && open_field(#[trigger] reports[k]) && stayed(
                    target,
                    #[trigger] reports[j],
                )
        }),
    decreases reports.len(),
{
    if reports.len() > 0 {
        let rest = reports.drop_last();
        let at = reports.len() - 1;
        lemma_guards_passed(typeable, target, rest);
        let before = run(Rung::Guard, typeable, target, rest).0;
        let rung = run(Rung::Guard, typeable, target, reports).0;
        assert(reports[at] == reports.last());
        if before is Guard {
            if !(rung is Guard || rung is Over) {
                assert(open_field(reports[at]));
            }
        } else if !(before is Over) {
            let k = choose|k: int| 0 <= k < rest.len() && open_field(#[trigger] rest[k]);
            assert(open_field(reports[k]));
            if before is Target {
                if !(rung is Target || rung is Over) {
                    assert(stayed(target, reports[at]));
                }
            } else {
                let (k, j) = choose|k: int, j: int|
                    0 <= k < j < rest.len() && open_field(#[trigger] rest[k]) && stayed(
                        target,
                        #[trigger] rest[j],
                    );
                assert(open_field(reports[k]) && stayed(target, reports[j]));
            }
        }
    }
}

/// Both guards come first: by the time the text is typed, written to the
/// clipboard or pasted, the focus was found not to be a password field, and
/// after that the foreground was found not to have moved.
pub proof fn both_guards_come_first(typeable: bool, target: Option<u32>, reports: Seq<Report>)
    requires
        reports.len() > 0,
        lands(run(Rung::Guard, typeable, target, reports).1.last()),
    ensures
        exists|k: int, j: int|
            0 <= k < j < reports.len() && open_field(#[trigger] reports[k]) && stayed(
                target,
                #[trigger] reports[j],
            ),
{
    lemma_guards_passed(typeable, target, reports);
}

proof fn lemma_no_control(target: Option<u32>, reports: Seq<Report>)
    ensures
        ({
            let rung = run(Rung::Guard, false, target, reports).0;
            !(rung is Control) && !(rung is Typing)
        }),
    decreases reports.len(),
{
    if reports.len() > 0 {
        lemma_no_control(target, reports.drop_last());
    }
}

/// A long text is never typed, whatever is reported.
pub proof fn long_texts_are_never_typed(target: Option<u32>, reports: Seq<Report>)
    requires
        reports.len() > 0,
    ensures
        run(Rung::Guard, false, target, reports).1.last() != Request::Type,
{
    lemma_no_control(target, reports);
    lemma_no_control(target, reports.drop_last());
}

/// An unknown process, on either side, never reads as a move.
pub proof fn the_unknown_never_moves(pid: Option<u32>)
    ensures
        !moved(None, pid),
        !moved(pid, None),
{
}

/// Where a run of reports takes an insertion, and everything that it is asked for
/// on the way.
pub open spec fn told(c: InsertionCoordinator, reports: Seq<Report>) -> (
    InsertionCoordinator,
    Seq<Request>,
)
    decreases reports.len(),
{
    if reports.len() == 0 {
        (c, Seq::empty())
    } else {
        let before = told(c, reports.drop_last());
        let next = reported(before.0, reports.last());
        (next.0, before.1.push(next.1))
    }
}

/// An insertion that has just been started.
pub open spec fn started(c: InsertionCoordinator) -> bool {
    c.rung == Rung::Guard && c.sequence is None
}

/// What one look at the ladder's reports says: the text is put on the clipboard to
/// stay, as the last resort, only where the clipboard could not be written or the
/// paste could not be posted; and never for any other reason than that or a
/// foreground that moved.
pub proof fn the_clipboard_is_the_last_resort(c: InsertionCoordinator, reports: Seq<Report>, i: int)
    requires
        0 <= i < told(c, reports).1.len(),
    ensures
        told(c, reports).1.len() == reports.len(),
        told(c, reports).1[i] matches Request::Finish { outcome, copy, restore } ==> {
            &&& copy ==> restore is None
            &&& copy ==> outcome == InsertionOutcome::FellBackToClipboard || outcome
                == InsertionOutcome::FrontmostChanged
            &&& copy && outcome == InsertionOutcome::FellBackToClipboard ==> reports[i]
                == Report::Written(None) || reports[i] == Report::Posted(false)
            &&& copy && outcome == InsertionOutcome::FrontmostChanged ==> (reports[i] matches
                Report::Foreground(Some(pid)) && c.target is Some && c.target != Some(pid))
        },
    decreases reports.len(),
{
    let rest = reports.drop_last();
    let before = told(c, rest);
    lemma_told(c, rest);
    if i < before.1.len() {
        the_clipboard_is_the_last_resort(c, rest, i);
        assert(reports[i] == rest[i]);
    } else {
        assert(reports[i] == reports.last());
    }
}

proof fn lemma_told(c: InsertionCoordinator, reports: Seq<Report>)
    ensures
        told(c, reports).1.len() == reports.len(),
        told(c, reports).0.target == c.target,
        told(c, reports).0.typeable == c.typeable,
    decreases reports.len(),
{
    if reports.len() > 0 {
        lemma_told(c, reports.drop_last());
    }
}

/// The ladder is tried in full. Where nothing is in the way (no password field, a
/// foreground that is known not to have moved, a write that succeeds and a paste
/// that is posted) a text that is not typed, because it is long, because no text
/// control is confirmed or because typing failed, is pasted all the same, and the
/// user's clipboard comes back.
pub proof fn an_untyped_text_is_pasted(
    c: InsertionCoordinator,
    first: FocusKind,
    second: FocusKind,
    before: Option<u32>,
    after: Option<u32>,
    sequence: u32,
)
    requires
        started(c),
        first != FocusKind::Password,
        second != FocusKind::Password,
        c.target is None || before is None || before == c.target,
        c.target is None || after is None || after == c.target,
    ensures
        ({
            let (guarded, asks_foreground) = reported(c, Report::Focus(first));
            let (placed, next) = reported(guarded, Report::Foreground(before));
            let (looked, chosen) = reported(placed, Report::Focus(second));
            let (typed, after_typing) = reported(looked, Report::Typed(false));
            // Where the ladder is when typing is out of the question.
            let here = if !c.typeable {
                placed
            } else if second == FocusKind::EditableText {
                typed
            } else {
                looked
            };
            let asked = if !c.typeable {
                next
            } else if second == FocusKind::EditableText {
                after_typing
            } else {
                chosen
            };
            let (checked, writes) = reported(here, Report::Foreground(after));
            let (written, posts) = reported(checked, Report::Written(Some(sequence)));
            let (over, end) = reported(written, Report::Posted(true));
            &&& asks_foreground == Request::QueryForeground
            &&& c.typeable ==> next == Request::QueryFocus
            &&& c.typeable && second == FocusKind::EditableText ==> chosen == Request::Type
            &&& asked == Request::QueryForeground
            &&& writes == Request::WriteClipboard
            &&& posts == Request::PostPaste
            &&& end == (Request::Finish {
                outcome: InsertionOutcome::Inserted,
                copy: false,
                restore: Some(sequence),
            })
            &&& over.rung == Rung::Over
        }),
{
}

/// A short text goes into a confirmed text control by typing alone: it is
/// inserted, and the clipboard is not touched.
pub proof fn a_short_text_is_typed(
    c: InsertionCoordinator,
    first: FocusKind,
    before: Option<u32>,
)
    requires
        started(c),
        c.typeable,
        first != FocusKind::Password,
        c.target is None || before is None || before == c.target,
    ensures
        ({
            let placed = reported(reported(c, Report::Focus(first)).0, Report::Foreground(before));
            let looked = reported(placed.0, Report::Focus(FocusKind::EditableText));
            let typed = reported(looked.0, Report::Typed(true));
            &&& placed.1 == Request::QueryFocus
            &&& looked.1 == Request::Type
            &&& typed.1 == (Request::Finish {
                outcome: InsertionOutcome::Inserted,
                copy: false,
                restore: None,
            })
        }),
{
}

/// Where the clipboard cannot be written, or the paste cannot be posted, the text
/// is left on the clipboard and said to be there.
pub proof fn a_failed_paste_falls_back_to_the_clipboard(c: InsertionCoordinator)
    ensures
        c.rung == Rung::Writing ==> reported(c, Report::Written(None)).1 == (Request::Finish {
            outcome: InsertionOutcome::FellBackToClipboard,
            copy: true,
            restore: None,
        }),
        c.rung == Rung::Posting ==> reported(c, Report::Posted(false)).1 == (Request::Finish {
            outcome: InsertionOutcome::FellBackToClipboard,
            copy: true,
            restore: None,
        }),
{
}

/// A foreground that provably moved, at either look, leaves the text on the
/// clipboard and says so; a password field, at either look, leaves it nowhere.
pub proof fn both_guards_end_the_insertion(c: InsertionCoordinator, expected: u32, current: u32)
    requires
        c.target == Some(expected),
        current != expected,
    ensures
        c.rung == Rung::Target || c.rung == Rung::Recheck ==> reported(
            c,
            Report::Foreground(Some(current)),
        ).1 == (Request::Finish {
            outcome: InsertionOutcome::FrontmostChanged,
            copy: true,
            restore: None,
        }),
        c.rung == Rung::Guard || c.rung == Rung::Control ==> reported(
            c,
            Report::Focus(FocusKind::Password),
        ).1 == (Request::Finish {
            outcome: InsertionOutcome::BlockedSecureField,
            copy: false,
            restore: None,
        }),
{
}

/// Both looks at the foreground are made before anything is pasted: the clipboard
/// is written only on the report of an unmoved foreground, and nothing is typed
/// but into a confirmed text control.
pub proof fn every_request_has_its_reason(c: InsertionCoordinator, report: Report)
    ensures
        reported(c, report).1 == Request::WriteClipboard && c.rung != Rung::Writing ==> (
        report matches Report::Foreground(pid) && (c.target is None || pid is None || pid
            == c.target)),
        reported(c, report).1 == Request::Type && c.rung != Rung::Typing ==> report
            == Report::Focus(FocusKind::EditableText),
        reported(c, report).1 == Request::PostPaste && c.rung != Rung::Posting ==> (
        report matches Report::Written(Some(_))),
        (reported(c, report).1 matches Request::Finish { outcome, .. } && outcome
            == InsertionOutcome::Inserted) ==> report == Report::Typed(true) || report
            == Report::Posted(true),
{
}

/// The user's clipboard goes back exactly if it held something and nobody has
/// touched it since.
pub proof fn a_copy_of_the_users_own_wins(written: u32, current: u32, is_empty: bool, yes: bool)
    requires
        call_ensures(may_restore, (written, current, is_empty), yes),
    ensures
        written != current ==> !yes,
        is_empty ==> !yes,
        written == current && !is_empty ==> yes,
{
}

/// The user is taken to have moved exactly if both processes are known and differ.
pub proof fn a_move_is_two_known_processes(
    context: DictationContext,
    foreground: Option<u32>,
    away: bool,
)
    requires
        call_ensures(moved_away, (&context, foreground), away),
    ensures
        away <==> context.target_pid is Some && foreground is Some && foreground
            != context.target_pid,
{
}

} // verus!
