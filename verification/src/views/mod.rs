//! What the windows say and do. There is no main window: each of these is a tool
//! that the tray opens.

use vstd::prelude::*;

use crate::shell::Screen;
use crate::update::Update;
use crate::views::widgets::{Said, SaidView, StatusTone};

pub mod dictionary;
pub mod history;
pub mod onboarding;
pub mod settings;
pub mod widgets;

verus! {

/// A window: its key, its title and its size.
#[derive(Debug, Clone, Copy)]
pub struct ToolWindow {
    pub key: &'static str,
    pub title: &'static str,
    pub width: u32,
    pub height: u32,
}

pub open spec fn window_key(screen: Screen) -> Seq<char> {
    match screen {
        Screen::Settings => "settings"@,
        Screen::History => "history"@,
        Screen::Dictionary => "dictionary"@,
        Screen::Onboarding => "onboarding"@,
        Screen::About => "about"@,
    }
}

pub open spec fn window_title(screen: Screen) -> Seq<char> {
    match screen {
        Screen::Settings => "Jot Settings"@,
        Screen::History => "Jot History"@,
        Screen::Dictionary => "Jot Dictionary"@,
        Screen::Onboarding => "Set up Jot"@,
        Screen::About => "About Jot"@,
    }
}

pub open spec fn window_size(screen: Screen) -> (u32, u32) {
    match screen {
        Screen::Settings => (620, 720),
        Screen::History => (760, 620),
        Screen::Dictionary => (640, 540),
        Screen::Onboarding => (620, 440),
        Screen::About => (440, 340),
    }
}

pub fn tool_window(screen: Screen) -> (window: ToolWindow)
    ensures
        window.key@ == window_key(screen),
        window.title@ == window_title(screen),
        (window.width, window.height) == window_size(screen),
{
    match screen {
        Screen::Settings => ToolWindow {
            key: "settings",
            title: "Jot Settings",
            width: 620,
            height: 720,
        },
        Screen::History => ToolWindow {
            key: "history",
            title: "Jot History",
            width: 760,
            height: 620,
        },
        Screen::Dictionary => ToolWindow {
            key: "dictionary",
            title: "Jot Dictionary",
            width: 640,
            height: 540,
        },
        Screen::Onboarding => ToolWindow {
            key: "onboarding",
            title: "Set up Jot",
            width: 620,
            height: 440,
        },
        Screen::About => ToolWindow {
            key: "about",
            title: "About Jot",
            width: 440,
            height: 340,
        },
    }
}

/// What a request for a window does: a second one brings the first forward
/// instead of stacking another on top of it.
#[derive(Debug, Clone, Copy, PartialEq, Eq, Structural)]
pub enum OpenWindow {
    Forward,
    New,
}

pub fn open_tool_window(known: bool, still_open: bool) -> (what: OpenWindow)
    ensures
        what == (if known && still_open {
            OpenWindow::Forward
        } else {
            OpenWindow::New
        }),
{
    if known && still_open {
        OpenWindow::Forward
    } else {
        OpenWindow::New
    }
}

/// Whether a newer release is out, as far as it is known.
#[derive(Debug)]
pub enum UpdateState {
    Checking,
    UpToDate,
    Available(Update),
    /// The server was unreachable or unhappy. Worth saying, not worth retrying.
    Unknown,
}

/// What a check came to.
pub fn update_state(outcome: Option<Option<Update>>) -> (state: UpdateState)
    ensures
        state == (match outcome {
            Some(Some(update)) => UpdateState::Available(update),
            Some(None) => UpdateState::UpToDate,
            None => UpdateState::Unknown,
        }),
{
    match outcome {
        Some(Some(update)) => UpdateState::Available(update),
        Some(None) => UpdateState::UpToDate,
        None => UpdateState::Unknown,
    }
}

/// What is said of it.
pub open spec fn update_said(state: UpdateState) -> SaidView {
    match state {
        UpdateState::Checking => SaidView {
            words: "Checking for updates…"@,
            tone: StatusTone::Neutral,
        },
        UpdateState::UpToDate => SaidView {
            words: "You are on the latest version."@,
            tone: StatusTone::Good,
        },
        UpdateState::Unknown => SaidView {
            words: "Could not reach GitHub to check for updates."@,
            tone: StatusTone::Neutral,
        },
        UpdateState::Available(update) => SaidView {
            words: "Jot "@ + update.version@ + " is available."@,
            tone: StatusTone::Good,
        },
    }
}

/// What is said of it, and the page to open if there is one.
pub fn update_element(state: &UpdateState) -> (shown: (Said, Option<String>))
    ensures
        shown.0@ == update_said(*state),
        match shown.1 {
            Some(page) => *state matches UpdateState::Available(update) && page@ == update.page@,
            None => !(state is Available),
        },
{
    match state {
        UpdateState::Checking => (Said::new("Checking for updates…", StatusTone::Neutral), None),
        UpdateState::UpToDate => (
            Said::new("You are on the latest version.", StatusTone::Good),
            None,
        ),
        UpdateState::Unknown => (
            Said::new("Could not reach GitHub to check for updates.", StatusTone::Neutral),
            None,
        ),
        UpdateState::Available(update) => {
            let mut words = "Jot ".to_owned();
            words.append(update.version.as_str());
            words.append(" is available.");
            (Said { words, tone: StatusTone::Good }, Some(update.page.clone()))
        },
    }
}

/// No two windows share a key, so none is mistaken for another.
pub proof fn window_keys_are_distinct(a: Screen, b: Screen)
    ensures
        window_key(a) == window_key(b) ==> a == b,
{
    reveal_strlit("settings");
    reveal_strlit("history");
    reveal_strlit("dictionary");
    reveal_strlit("onboarding");
    reveal_strlit("about");
    assert(window_key(a).len() == window_key(b).len() ==> a == b || (window_key(a)[0]
        != window_key(b)[0]));
}

} // verus!
