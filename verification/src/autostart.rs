//! Starting with Windows: the command stored under the user's `Run` key.

use vstd::prelude::*;

use crate::text::{ascii_lowered, chars_of, lowered_ascii, opt_text, same_chars};

verus! {

/// The value name under `Run`. Also what Task Manager shows the user.
pub const ENTRY_NAME: &'static str = "Jot";

/// The command line for an executable, quoted so that a path with spaces is not
/// split into arguments.
pub fn launch_command(exe: &str) -> (command: String)
    ensures
        command@ == seq!['"'] + exe@ + seq!['"'],
{
    let mut command = String::new();
    command.push('"');
    command.append(exe);
    command.push('"');
    assert(command@ =~= seq!['"'] + exe@ + seq!['"']);
    command
}

pub fn is_enabled(stored: &Option<String>) -> (enabled: bool)
    ensures
        enabled == (stored is Some),
{
    stored.is_some()
}

/// Whether what is stored points at another build than the one running.
pub open spec fn stale(stored: Option<Seq<char>>, current: Option<Seq<char>>) -> bool {
    match (stored, current) {
        (Some(stored), Some(current)) => ascii_lowered(stored) != ascii_lowered(current),
        _ => false,
    }
}

pub fn is_stale(stored: &Option<String>, current: &Option<String>) -> (yes: bool)
    ensures
        yes == stale(opt_text(*stored), opt_text(*current)),
{
    match (stored, current) {
        (Some(stored), Some(current)) => {
            let a = lowered_ascii(&chars_of(stored.as_str()));
            let b = lowered_ascii(&chars_of(current.as_str()));
            !same_chars(&a, &b)
        },
        _ => false,
    }
}

/// What turning the entry on or off does to the registry.
#[derive(Debug, PartialEq, Eq)]
pub enum Change {
    Write(String),
    Remove,
    /// The running executable has no path: it failed.
    Fail,
}

pub enum ChangeView {
    Write(Seq<char>),
    Remove,
    Fail,
}

impl View for Change {
    type V = ChangeView;

    open spec fn view(&self) -> ChangeView {
        match self {
            Change::Write(command) => ChangeView::Write(command@),
            Change::Remove => ChangeView::Remove,
            Change::Fail => ChangeView::Fail,
        }
    }
}

pub fn set_enabled(enabled: bool, command: Option<String>) -> (change: Change)
    ensures
        change@ == (if !enabled {
            ChangeView::Remove
        } else {
            match command {
                Some(command) => ChangeView::Write(command@),
                None => ChangeView::Fail,
            }
        }),
{
    match (enabled, command) {
        (true, Some(command)) => Change::Write(command),
        (true, None) => Change::Fail,
        (false, _) => Change::Remove,
    }
}

/// Whether a removal worked. An entry that was already absent is off, which is
/// what was asked for.
pub fn removed(deleted: bool, absent: bool) -> (ok: bool)
    ensures
        ok == (deleted || absent),
{
    deleted || absent
}

/// What the launch does about an entry left behind by a build that has moved:
/// rewrite it, so that starting with Windows keeps meaning this executable.
pub fn repair(stored: &Option<String>, current: Option<String>) -> (change: Option<Change>)
    ensures
        match change {
            Some(change) => stale(opt_text(*stored), opt_text(current)) && change@
                == ChangeView::Write(opt_text(current)->0),
            None => !stale(opt_text(*stored), opt_text(current)),
        },
{
    if is_stale(stored, &current) {
        Some(set_enabled(true, current))
    } else {
        None
    }
}

/// Nothing stored is never stale, and what was just written is not either.
pub proof fn a_missing_entry_is_never_stale(current: Option<Seq<char>>)
    ensures
        !stale(None, current),
        !stale(current, current),
{
}

/// The entry is rewritten exactly if it is there and points, case aside, at another
/// executable than the one running; and it is rewritten to that one.
pub proof fn a_moved_program_is_followed(
    stored: Option<String>,
    current: Option<String>,
    change: Option<Change>,
)
    requires
        call_ensures(repair, (&stored, current), change),
    ensures
        change is Some <==> (stored matches Some(old) && (current matches Some(new)
            && ascii_lowered(old@) != ascii_lowered(new@))),
        change matches Some(made) ==> (made matches Change::Write(command) && Some(command@)
            == opt_text(current)),
{
    if change is Some {
        let made = change->0;
        assert(made@ is Write ==> made is Write);
    }
}

/// Turning it on writes the command, turning it off removes the entry.
pub proof fn the_switch_writes_or_removes(
    enabled: bool,
    command: Option<String>,
    change: Change,
)
    requires
        call_ensures(set_enabled, (enabled, command), change),
    ensures
        !enabled ==> change is Remove,
        enabled && command is Some ==> change@ == ChangeView::Write(opt_text(command)->0),
        enabled && command is None ==> change is Fail,
{
    assert(change@ is Remove ==> change is Remove);
    assert(change@ is Fail ==> change is Fail);
}

} // verus!
