//! Setup: about two minutes, and it makes you try the thing once.
//!
//! The key check has three outcomes. A key the server rejected blocks; a check
//! that could not be made lets the user continue.

use vstd::prelude::*;

use crate::coordinator::{CoordinatorUpdate, UpdateView};
use crate::gemini::{KeyCheck, KeyCheckView};
use crate::hotkey::HotkeyKey;
use crate::settings::{SettingsStore, SettingsView};
use crate::sound::{play, Earcon};
use crate::state_machine::{DictationOutcome, DictationState};
use crate::text::{chars_of, join, joined, string_of, texts, trim, trimmed, views};
use crate::views::widgets::{opt_said, Said, SaidView, StatusTone};

verus! {

#[derive(Debug, Clone, Copy, PartialEq, Eq, Structural)]
pub enum Step {
    Key,
    Microphone,
    TryIt,
    Done,
}

pub const TOTAL_STEPS: usize = 4;

impl Step {
    pub open spec fn number(self) -> usize {
        match self {
            Step::Key => 1,
            Step::Microphone => 2,
            Step::TryIt => 3,
            Step::Done => 4,
        }
    }

    pub fn index(self) -> (index: usize)
        ensures
            index == self.number(),
            1 <= index <= TOTAL_STEPS,
    {
        match self {
            Step::Key => 1,
            Step::Microphone => 2,
            Step::TryIt => 3,
            Step::Done => 4,
        }
    }
}

#[derive(Debug)]
pub struct OnboardingView {
    pub step: Step,
    pub status: Option<Said>,
    pub checking: bool,
    /// Set once a dictation actually completes while the window is open.
    pub tried_it: bool,
}

pub struct OnboardingModel {
    pub step: Step,
    pub status: Option<SaidView>,
    pub checking: bool,
    pub tried_it: bool,
}

impl View for OnboardingView {
    type V = OnboardingModel;

    open spec fn view(&self) -> OnboardingModel {
        OnboardingModel {
            step: self.step,
            status: opt_said(self.status),
            checking: self.checking,
            tried_it: self.tried_it,
        }
    }
}

pub open spec fn said(words: Seq<char>, tone: StatusTone) -> Option<SaidView> {
    Some(SaidView { words, tone })
}

/// Whether an update says that a dictation landed.
pub open spec fn landed(update: UpdateView) -> bool {
    update matches UpdateView::State(DictationState::Done(outcome)) && (outcome is Inserted
        || outcome is CopiedToClipboard || outcome is AwaitingChip)
}

/// What comes of a key that is saved.
#[derive(Debug, PartialEq, Eq)]
pub enum SaveKey {
    /// There is nothing to save.
    Empty,
    /// Put this key in the credential store.
    Store(String),
}

/// A key as it is typed: without the blanks around it.
pub fn typed_key(typed: &str) -> (save: SaveKey)
    ensures
        match save {
            SaveKey::Empty => trim(typed@).len() == 0,
            SaveKey::Store(key) => key@ == trim(typed@) && key@.len() > 0,
        },
{
    let key = trimmed(&chars_of(typed));
    if key.len() == 0 {
        SaveKey::Empty
    } else {
        SaveKey::Store(string_of(&key))
    }
}

impl OnboardingModel {
    /// After an update of the coordinator.
    pub open spec fn told(self, update: UpdateView) -> OnboardingModel {
        if landed(update) {
            OnboardingModel {
                tried_it: true,
                step: if self.step is TryIt {
                    Step::Done
                } else {
                    self.step
                },
                ..self
            }
        } else {
            self
        }
    }

    /// After a check: a rejected key, and one that cannot reach the model, stay
    /// where they are.
    pub open spec fn checked(
        self,
        check: KeyCheckView,
        model_found: bool,
        model: Seq<char>,
    ) -> OnboardingModel {
        let idle = OnboardingModel { checking: false, ..self };
        match check {
            KeyCheckView::Valid => if model_found {
                OnboardingModel {
                    status: said("Key works"@, StatusTone::Good),
                    step: Step::Microphone,
                    ..idle
                }
            } else {
                OnboardingModel {
                    status: said(
                        "Your key works, but it can't reach "@ + model
                            + ". Pick another in Settings → Advanced."@,
                        StatusTone::Bad,
                    ),
                    ..idle
                }
            },
            KeyCheckView::Rejected(detail) => OnboardingModel {
                status: said(
                    match detail {
                        Some(detail) => detail,
                        None => "Google rejected this key"@,
                    },
                    StatusTone::Bad,
                ),
                ..idle
            },
            KeyCheckView::Unreachable => OnboardingModel {
                status: said(
                    "Couldn't reach Google to check it. Saved anyway — carry on."@,
                    StatusTone::Neutral,
                ),
                step: Step::Microphone,
                ..idle
            },
        }
    }
}

impl OnboardingView {
    /// Someone reopening setup with a key already stored starts past the first
    /// step.
    pub fn new(has_key: bool) -> (view: Self)
        ensures
            view@ == (OnboardingModel {
                step: if has_key {
                    Step::Microphone
                } else {
                    Step::Key
                },
                status: None,
                checking: false,
                tried_it: false,
            }),
    {
        OnboardingView {
            step: if has_key {
                Step::Microphone
            } else {
                Step::Key
            },
            status: None,
            checking: false,
            tried_it: false,
        }
    }

    /// The user is told that they succeeded by the thing succeeding: the third
    /// step ends as soon as a dictation lands.
    pub fn update(&mut self, update: &CoordinatorUpdate) -> (changed: bool)
        ensures
            changed == landed(update@),
            final(self)@ == old(self)@.told(update@),
    {
        let landed = match update {
            CoordinatorUpdate::State(DictationState::Done(outcome)) => match outcome {
                DictationOutcome::Inserted => true,
                DictationOutcome::CopiedToClipboard => true,
                DictationOutcome::AwaitingChip => true,
                _ => false,
            },
            _ => false,
        };
        if landed {
            self.tried_it = true;
            if self.step == Step::TryIt {
                self.step = Step::Done;
            }
        }
        landed
    }

    /// Nothing was typed.
    pub fn key_missing(&mut self)
        ensures
            final(self)@ == (OnboardingModel {
                status: said("Paste your key first"@, StatusTone::Bad),
                ..old(self)@
            }),
    {
        self.status = Some(Said::new("Paste your key first", StatusTone::Bad));
    }

    /// The credential store answered. If it took the key, the key is checked.
    pub fn key_stored(&mut self, stored: bool) -> (check: bool)
        ensures
            check == stored,
            final(self)@ == (if stored {
                OnboardingModel {
                    status: said("Checking your key…"@, StatusTone::Neutral),
                    checking: true,
                    ..old(self)@
                }
            } else {
                OnboardingModel {
                    status: said(
                        "Windows Credential Manager refused the key"@,
                        StatusTone::Bad,
                    ),
                    ..old(self)@
                }
            }),
    {
        if stored {
            self.checking = true;
            self.status = Some(Said::new("Checking your key…", StatusTone::Neutral));
        } else {
            self.status = Some(
                Said::new("Windows Credential Manager refused the key", StatusTone::Bad),
            );
        }
        stored
    }

    /// The check came back, and with it whether the model can be reached: a key
    /// that works should mean that the whole pipeline works.
    pub fn key_checked(&mut self, check: KeyCheck, model_found: bool, model: &str)
        ensures
            final(self)@ == old(self)@.checked(check@, model_found, model@),
    {
        self.checking = false;
        match check {
            KeyCheck::Valid => {
                if model_found {
                    self.status = Some(Said::new("Key works", StatusTone::Good));
                    self.step = Step::Microphone;
                } else {
                    let mut words = "Your key works, but it can't reach ".to_owned();
                    words.append(model);
                    words.append(". Pick another in Settings → Advanced.");
                    self.status = Some(Said { words, tone: StatusTone::Bad });
                }
            },
            KeyCheck::Rejected(detail) => {
                let words = match detail {
                    Some(detail) => detail,
                    None => "Google rejected this key".to_owned(),
                };
                self.status = Some(Said { words, tone: StatusTone::Bad });
            },
            KeyCheck::Unreachable => {
                self.status = Some(
                    Said::new(
                        "Couldn't reach Google to check it. Saved anyway — carry on.",
                        StatusTone::Neutral,
                    ),
                );
                self.step = Step::Microphone;
            },
        }
    }

    /// The microphones that there are.
    pub fn check_microphone(&mut self, devices: &Vec<String>)
        ensures
            final(self)@ == (if devices@.len() == 0 {
                OnboardingModel {
                    status: said(
                        "Windows reports no microphone. Plug one in and try again."@,
                        StatusTone::Bad,
                    ),
                    ..old(self)@
                }
            } else {
                OnboardingModel {
                    status: said(
                        "Found "@ + joined(texts(devices@), ", "@),
                        StatusTone::Good,
                    ),
                    step: Step::TryIt,
                    ..old(self)@
                }
            }),
    {
        if devices.len() == 0 {
            self.status = Some(
                Said::new(
                    "Windows reports no microphone. Plug one in and try again.",
                    StatusTone::Bad,
                ),
            );
        } else {
            let mut list: Vec<Vec<char>> = Vec::new();
            let mut i: usize = 0;
            while i < devices.len()
                invariant
                    i <= devices@.len(),
                    list@.len() == i,
                    forall|k: int| 0 <= k < i ==> (#[trigger] list@[k])@ == devices@[k]@,
                decreases devices@.len() - i,
            {
                list.push(chars_of(devices[i].as_str()));
                i += 1;
            }
            assert(views(list@) =~= texts(devices@));
            let mut words = "Found ".to_owned();
            words.append(string_of(&join(&list, &chars_of(", "))).as_str());
            self.status = Some(Said { words, tone: StatusTone::Good });
            self.step = Step::TryIt;
        }
    }

    pub fn skip(&mut self)
        ensures
            final(self)@ == (OnboardingModel { step: Step::Done, ..old(self)@ }),
    {
        self.step = Step::Done;
    }

    /// Setup is over, finished or put off: it does not come up again by itself.
    /// The one celebratory sound is for those who got a dictation through.
    pub fn finish(&self, settings: &mut SettingsStore, player_started: bool) -> (sound: Option<
        Earcon,
    >)
        ensures
            final(settings).data@ == (SettingsView {
                has_completed_onboarding: true,
                ..old(settings).data@
            }),
            sound == (if self.tried_it && old(settings).data@.sounds_enabled && player_started {
                Some(Earcon::Celebration)
            } else {
                None
            }),
    {
        let sound = if self.tried_it {
            play(Earcon::Celebration, settings.data.sounds_enabled, player_started)
        } else {
            None
        };
        settings.data.has_completed_onboarding = true;
        sound
    }
}

/// What a step shows: its paragraphs, whether the field for the key is there, and
/// its button.
#[derive(Debug)]
pub struct Body {
    pub paragraphs: Vec<String>,
    pub key_field: bool,
    pub button: &'static str,
    pub enabled: bool,
}

pub const KEY_WORDS: &'static str = "Jot uses your own Gemini API key. Get one from Google AI Studio, then paste it here. It is stored in Windows Credential Manager and only ever sent to Google.";

pub const KEY_PLACE: &'static str = "aistudio.google.com/apikey";

pub const MICROPHONE_WORDS: &'static str = "Jot records from your default Windows input device. Windows will ask for microphone permission the first time you dictate.";

pub const TRY_WORDS: &'static str = "Jot should type \"Let's meet at 2 PM.\" — it follows a change of mind. This step finishes by itself as soon as a dictation lands.";

pub const DONE_WORDS: &'static str = "That's it. Hold the key anywhere you can type.";

pub const LATER_WORDS: &'static str = "That's it. Hold the key anywhere you can type — come back here from the notification area if you want to walk through it again.";

/// What the third step asks for.
pub open spec fn try_words(key: HotkeyKey) -> Seq<char> {
    "Click into any text box, hold "@ + key.label()
        + ", and say:\n\"let's meet at 1pm — actually, no, make it 2pm\""@
}

/// What the last step leaves the user with.
pub open spec fn keys_words(key: HotkeyKey) -> Seq<char> {
    "Hold "@ + key.label()
        + " to talk · tap Space while holding for hands-free · Esc cancels"@
}

pub open spec fn paragraphs_of(view: OnboardingModel, key: HotkeyKey) -> Seq<Seq<char>> {
    match view.step {
        Step::Key => seq![KEY_WORDS@, KEY_PLACE@],
        Step::Microphone => seq![MICROPHONE_WORDS@],
        Step::TryIt => seq![try_words(key), TRY_WORDS@],
        Step::Done => seq![
            if view.tried_it {
                DONE_WORDS@
            } else {
                LATER_WORDS@
            },
            keys_words(key),
        ],
    }
}

pub open spec fn button_of(view: OnboardingModel) -> Seq<char> {
    match view.step {
        Step::Key => if view.checking {
            "Checking…"@
        } else {
            "Save and check"@
        },
        Step::Microphone => "Check my microphone"@,
        Step::TryIt => "Skip this"@,
        Step::Done => "Done"@,
    }
}

impl OnboardingView {
    pub fn body(&self, key: HotkeyKey) -> (body: Body)
        ensures
            texts(body.paragraphs@) == paragraphs_of(self@, key),
            body.key_field == (self.step is Key),
            body.button@ == button_of(self@),
            body.enabled == !(self.step is Key && self.checking),
    {
        let mut paragraphs: Vec<String> = Vec::new();
        let (key_field, button, enabled) = match self.step {
            Step::Key => {
                paragraphs.push(KEY_WORDS.to_owned());
                paragraphs.push(KEY_PLACE.to_owned());
                if self.checking {
                    (true, "Checking…", false)
                } else {
                    (true, "Save and check", true)
                }
            },
            Step::Microphone => {
                paragraphs.push(MICROPHONE_WORDS.to_owned());
                (false, "Check my microphone", true)
            },
            Step::TryIt => {
                let mut words = "Click into any text box, hold ".to_owned();
                words.append(key.display_name());
                words.append(", and say:\n\"let's meet at 1pm — actually, no, make it 2pm\"");
                paragraphs.push(words);
                paragraphs.push(TRY_WORDS.to_owned());
                (false, "Skip this", true)
            },
            Step::Done => {
                if self.tried_it {
                    paragraphs.push(DONE_WORDS.to_owned());
                } else {
                    paragraphs.push(LATER_WORDS.to_owned());
                }
                let mut words = "Hold ".to_owned();
                words.append(key.display_name());
                words.append(" to talk · tap Space while holding for hands-free · Esc cancels");
                paragraphs.push(words);
                (false, "Done", true)
            },
        };
        assert(texts(paragraphs@) =~= paragraphs_of(self@, key));
        Body { paragraphs, key_field, button, enabled }
    }
}

/// A key the server rejected, and one that cannot reach the model, never gets
/// past the first step; a check that could not be made always does.
pub proof fn only_a_rejected_key_blocks(
    view: OnboardingModel,
    check: KeyCheckView,
    model_found: bool,
    model: Seq<char>,
)
    requires
        view.step is Key,
    ensures
        ({
            let after = view.checked(check, model_found, model);
            &&& check is Rejected ==> after.step is Key
            &&& check is Valid && !model_found ==> after.step is Key
            &&& check is Valid && model_found ==> after.step is Microphone
            &&& check is Unreachable ==> after.step is Microphone
            &&& !after.checking && after.status is Some
        }),
{
}

/// A key that the server rejected never gets past the first step, nor does one that
/// cannot reach the model; a good one does, and so does one that could not be
/// checked.
pub proof fn only_an_answer_holds_the_user_up(
    view: OnboardingModel,
    check: KeyCheckView,
    model_found: bool,
    model: Seq<char>,
)
    requires
        view.step is Key,
    ensures
        ({
            let after = view.checked(check, model_found, model);
            &&& !after.checking
            &&& after.status is Some
            &&& after.tried_it == view.tried_it
            &&& check is Rejected ==> after.step is Key && (after.status->0).tone == StatusTone::Bad
            &&& check is Valid && !model_found ==> after.step is Key && (after.status->0).tone
                == StatusTone::Bad
            &&& check is Valid && model_found ==> after.step is Microphone && (
            after.status->0).tone == StatusTone::Good
            &&& check is Unreachable ==> after.step is Microphone && (after.status->0).tone
                == StatusTone::Neutral
            &&& check matches KeyCheckView::Rejected(Some(detail)) ==> (after.status->0).words
                == detail
        }),
{
}

/// The third step ends when a dictation lands, wherever its text went, and by
/// nothing else that happens.
pub proof fn a_landed_dictation_ends_the_setup(view: OnboardingModel, update: UpdateView)
    ensures
        ({
            let after = view.told(update);
            let got_through = update matches UpdateView::State(DictationState::Done(outcome)) && (
            outcome is Inserted || outcome is CopiedToClipboard || outcome is AwaitingChip);
            &&& !got_through ==> after == view
            &&& got_through ==> after.tried_it
            &&& got_through && view.step is TryIt ==> after.step is Done
            &&& !(view.step is TryIt) ==> after.step == view.step
        }),
{
}

/// A key is stored without the blanks around it, if anything is left.
pub proof fn a_key_is_stored_trimmed(typed: &str, save: SaveKey)
    requires
        call_ensures(typed_key, (typed,), save),
    ensures
        save is Empty <==> trim(typed@).len() == 0,
        save matches SaveKey::Store(key) ==> key@ == trim(typed@),
{
}

/// Someone who has a key starts past the first step.
pub proof fn setup_starts_where_it_has_to(has_key: bool, view: OnboardingView)
    requires
        call_ensures(OnboardingView::new, (has_key,), view),
    ensures
        view.step is Microphone <==> has_key,
        view.step is Key <==> !has_key,
        !view.tried_it && !view.checking && view.status is None,
{
}

} // verus!
