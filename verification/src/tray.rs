//! The notification-area icon: its menu, its messages and its image.

use vstd::prelude::*;
use vstd::slice::slice_subrange;

verus! {

#[derive(Debug, Clone, Copy, PartialEq, Eq, Structural)]
pub enum TrayCommand {
    /// Start or stop a hands-free dictation from the menu, for anyone who cannot
    /// hold the key.
    ToggleDictation,
    OpenHistory,
    OpenDictionary,
    OpenSettings,
    OpenOnboarding,
    About,
    Quit,
}

impl TrayCommand {
    pub open spec fn number(self) -> u32 {
        match self {
            TrayCommand::ToggleDictation => 1,
            TrayCommand::OpenHistory => 2,
            TrayCommand::OpenDictionary => 3,
            TrayCommand::OpenSettings => 4,
            TrayCommand::OpenOnboarding => 5,
            TrayCommand::About => 6,
            TrayCommand::Quit => 7,
        }
    }

    /// The command with a number.
    pub open spec fn numbered(id: u32) -> Option<TrayCommand> {
        if id == 1 {
            Some(TrayCommand::ToggleDictation)
        } else if id == 2 {
            Some(TrayCommand::OpenHistory)
        } else if id == 3 {
            Some(TrayCommand::OpenDictionary)
        } else if id == 4 {
            Some(TrayCommand::OpenSettings)
        } else if id == 5 {
            Some(TrayCommand::OpenOnboarding)
        } else if id == 6 {
            Some(TrayCommand::About)
        } else if id == 7 {
            Some(TrayCommand::Quit)
        } else {
            None
        }
    }

    /// What the menu says.
    pub open spec fn words(self, dictating: bool) -> Seq<char> {
        match self {
            TrayCommand::ToggleDictation => if dictating {
                "Stop dictation"@
            } else {
                "Start dictation"@
            },
            TrayCommand::OpenHistory => "History…"@,
            TrayCommand::OpenDictionary => "Dictionary…"@,
            TrayCommand::OpenSettings => "Settings…"@,
            TrayCommand::OpenOnboarding => "Setup guide…"@,
            TrayCommand::About => "About Jot"@,
            TrayCommand::Quit => "Quit Jot"@,
        }
    }

    pub fn from_id(id: u32) -> (command: Option<Self>)
        ensures
            command == Self::numbered(id),
    {
        match id {
            1 => Some(TrayCommand::ToggleDictation),
            2 => Some(TrayCommand::OpenHistory),
            3 => Some(TrayCommand::OpenDictionary),
            4 => Some(TrayCommand::OpenSettings),
            5 => Some(TrayCommand::OpenOnboarding),
            6 => Some(TrayCommand::About),
            7 => Some(TrayCommand::Quit),
            _ => None,
        }
    }

    pub fn id(self) -> (id: u32)
        ensures
            id == self.number(),
    {
        match self {
            TrayCommand::ToggleDictation => 1,
            TrayCommand::OpenHistory => 2,
            TrayCommand::OpenDictionary => 3,
            TrayCommand::OpenSettings => 4,
            TrayCommand::OpenOnboarding => 5,
            TrayCommand::About => 6,
            TrayCommand::Quit => 7,
        }
    }

    pub fn label(self, dictating: bool) -> (label: &'static str)
        ensures
            label@ == self.words(dictating),
    {
        match self {
            TrayCommand::ToggleDictation => {
                if dictating {
                    "Stop dictation"
                } else {
                    "Start dictation"
                }
            },
            TrayCommand::OpenHistory => "History…",
            TrayCommand::OpenDictionary => "Dictionary…",
            TrayCommand::OpenSettings => "Settings…",
            TrayCommand::OpenOnboarding => "Setup guide…",
            TrayCommand::About => "About Jot",
            TrayCommand::Quit => "Quit Jot",
        }
    }
}

pub const MENU_ORDER: [TrayCommand; 7] = [
    TrayCommand::ToggleDictation,
    TrayCommand::OpenHistory,
    TrayCommand::OpenDictionary,
    TrayCommand::OpenSettings,
    TrayCommand::OpenOnboarding,
    TrayCommand::About,
    TrayCommand::Quit,
];

/// The tip under the icon.
pub const TIP: &'static str = "Jot — hold the dictation key and speak";

/// Separators go after the dictation control and before Quit.
pub fn separator_after(command: TrayCommand) -> (yes: bool)
    ensures
        yes == (command is ToggleDictation || command is About),
{
    matches!(command, TrayCommand::ToggleDictation | TrayCommand::About)
}

/// A line of the menu.
#[derive(Debug, PartialEq, Eq)]
pub enum MenuItem {
    Command { id: u32, label: &'static str },
    Separator,
}

pub enum MenuItemView {
    Command { id: u32, label: Seq<char> },
    Separator,
}

impl View for MenuItem {
    type V = MenuItemView;

    open spec fn view(&self) -> MenuItemView {
        match self {
            MenuItem::Command { id, label } => MenuItemView::Command { id: *id, label: label@ },
            MenuItem::Separator => MenuItemView::Separator,
        }
    }
}

/// A list of commands as lines of a menu.
pub open spec fn menu(commands: Seq<TrayCommand>, dictating: bool) -> Seq<MenuItemView>
    decreases commands.len(),
{
    if commands.len() == 0 {
        Seq::empty()
    } else {
        let last = commands.last();
        let so_far = menu(commands.drop_last(), dictating).push(
            MenuItemView::Command { id: last.number(), label: last.words(dictating) },
        );
        if last is ToggleDictation || last is About {
            so_far.push(MenuItemView::Separator)
        } else {
            so_far
        }
    }
}

pub open spec fn item_views(items: Seq<MenuItem>) -> Seq<MenuItemView> {
    items.map_values(|i: MenuItem| i@)
}

/// The menu as it is shown.
pub fn menu_items(dictating: bool) -> (items: Vec<MenuItem>)
    ensures
        item_views(items@) == menu(MENU_ORDER@, dictating),
{
    let order = MENU_ORDER;
    let ghost all = MENU_ORDER@;
    let mut items: Vec<MenuItem> = Vec::new();
    let mut i: usize = 0;
    assert(all.take(0) =~= Seq::<TrayCommand>::empty());
    assert(item_views(items@) =~= Seq::<MenuItemView>::empty());
    while i < 7
        invariant
            i <= 7,
            order@ == all,
            all.len() == 7,
            item_views(items@) == menu(all.take(i as int), dictating),
        decreases 7 - i,
    {
        let command = order[i];
        proof {
            assert(all.take(i + 1).drop_last() =~= all.take(i as int));
            assert(all.take(i + 1).last() == command);
        }
        let ghost before = items@;
        items.push(MenuItem::Command { id: command.id(), label: command.label(dictating) });
        let ghost between = items@;
        assert(item_views(between) =~= item_views(before).push(between.last()@));
        if separator_after(command) {
            items.push(MenuItem::Separator);
            assert(item_views(items@) =~= item_views(between).push(MenuItemView::Separator));
        }
        i += 1;
    }
    assert(all.take(7) =~= all);
    items
}

/// What the message loop knows: it cannot ask anyone else.
#[derive(Debug, Clone, Copy, PartialEq, Eq, Structural)]
pub struct TrayState {
    pub dictating: bool,
}

impl TrayState {
    pub fn new() -> (tray: Self)
        ensures
            !tray.dictating,
    {
        TrayState { dictating: false }
    }

    pub fn is_dictating(&self) -> (yes: bool)
        ensures
            yes == self.dictating,
    {
        self.dictating
    }
}

/// Mirrors the session, so that the menu can say "Stop" while one runs.
pub fn set_dictating(tray: &mut TrayState, dictating: bool)
    ensures
        final(tray).dictating == dictating,
{
    tray.dictating = dictating;
}

/// The message for a click on the icon.
pub const WM_TRAY: u32 = 0x8001;

pub const WM_COMMAND: u32 = 0x0111;

pub const WM_DESTROY: u32 = 0x0002;

pub const WM_LBUTTONUP: u32 = 0x0202;

pub const WM_RBUTTONUP: u32 = 0x0205;

/// What a message to the icon's window asks for.
#[derive(Debug, Clone, Copy, PartialEq, Eq, Structural)]
pub enum TrayAction {
    Emit(TrayCommand),
    ShowMenu,
    /// Handled, with nothing to do.
    Nothing,
    Quit,
    /// Not ours.
    Default,
}

/// A left click is the fast path to the thing people open most; the menu is on
/// the right button.
pub open spec fn reaction(message: u32, wparam: u64, lparam: u64) -> TrayAction {
    if message == WM_TRAY {
        let event = lparam % 0x1_0000_0000;
        if event == WM_LBUTTONUP {
            TrayAction::Emit(TrayCommand::OpenHistory)
        } else if event == WM_RBUTTONUP {
            TrayAction::ShowMenu
        } else {
            TrayAction::Nothing
        }
    } else if message == WM_COMMAND {
        match TrayCommand::numbered((wparam % 0x1_0000) as u32) {
            Some(command) => TrayAction::Emit(command),
            None => TrayAction::Nothing,
        }
    } else if message == WM_DESTROY {
        TrayAction::Quit
    } else {
        TrayAction::Default
    }
}

pub fn on_message(message: u32, wparam: u64, lparam: u64) -> (action: TrayAction)
    ensures
        action == reaction(message, wparam, lparam),
{
    if message == WM_TRAY {
        let event: u64 = lparam % 0x1_0000_0000;
        if event == WM_LBUTTONUP as u64 {
            TrayAction::Emit(TrayCommand::OpenHistory)
        } else if event == WM_RBUTTONUP as u64 {
            TrayAction::ShowMenu
        } else {
            TrayAction::Nothing
        }
    } else if message == WM_COMMAND {
        match TrayCommand::from_id((wparam % 0x1_0000) as u32) {
            Some(command) => TrayAction::Emit(command),
            None => TrayAction::Nothing,
        }
    } else if message == WM_DESTROY {
        TrayAction::Quit
    } else {
        TrayAction::Default
    }
}

/// The bytes before the entries of an icon file.
pub const HEADER: usize = 6;

/// The bytes of an entry.
pub const ENTRY: usize = 16;

/// Two bytes, the lower first.
pub open spec fn le16(s: Seq<u8>, at: int) -> int {
    s[at] + 0x100 * s[at + 1]
}

/// Four bytes, the lowest first.
pub open spec fn le32(s: Seq<u8>, at: int) -> int {
    s[at] + 0x100 * s[at + 1] + 0x1_0000 * s[at + 2] + 0x100_0000 * s[at + 3]
}

pub open spec fn is_ico(ico: Seq<u8>) -> bool {
    ico.len() >= HEADER && ico[0] == 0 && ico[1] == 0 && ico[2] == 1 && ico[3] == 0
}

/// How many entries there are: no more than the file holds.
pub open spec fn entries(ico: Seq<u8>) -> int {
    let count = le16(ico, 4);
    let held = (ico.len() - HEADER) / ENTRY as int;
    if count <= held {
        count
    } else {
        held
    }
}

pub open spec fn entry_at(index: int) -> int {
    HEADER + index * ENTRY
}

/// The width of an entry's image. A byte of zero means 256.
pub open spec fn entry_width(ico: Seq<u8>, index: int) -> int {
    let w = ico[entry_at(index)];
    if w == 0 {
        256
    } else {
        w as int
    }
}

pub open spec fn entry_size(ico: Seq<u8>, index: int) -> int {
    le32(ico, entry_at(index) + 8)
}

pub open spec fn entry_offset(ico: Seq<u8>, index: int) -> int {
    le32(ico, entry_at(index) + 12)
}

/// An entry whose image is in the file.
pub open spec fn has_image(ico: Seq<u8>, index: int) -> bool {
    entry_size(ico, index) != 0 && entry_offset(ico, index) + entry_size(ico, index) <= ico.len()
}

pub open spec fn gap(a: int, b: int) -> int {
    if a >= b {
        a - b
    } else {
        b - a
    }
}

/// Whether an entry is the first of those closest to the width that is wanted.
pub open spec fn closest(ico: Seq<u8>, wanted: int, upto: int, index: int) -> bool {
    &&& 0 <= index < upto
    &&& has_image(ico, index)
    &&& forall|k: int|
        0 <= k < upto && #[trigger] has_image(ico, k) ==> {
            let mine = gap(entry_width(ico, index), wanted);
            let other = gap(entry_width(ico, k), wanted);
            mine <= other && (k < index ==> mine < other)
        }
}

fn read32(s: &[u8], at: usize) -> (n: u64)
    requires
        at + 4 <= s@.len(),
    ensures
        n == le32(s@, at as int),
        n <= u32::MAX,
{
    s[at] as u64 + 0x100 * (s[at + 1] as u64) + 0x1_0000 * (s[at + 2] as u64) + 0x100_0000 * (s[at
        + 3] as u64)
}

/// Picks the image inside an icon file closest to `wanted` pixels wide.
pub fn icon_entry(ico: &[u8], wanted: u32) -> (image: Option<&[u8]>)
    ensures
        match image {
            Some(image) => is_ico(ico@) && exists|i: int|
                #[trigger] closest(ico@, wanted as int, entries(ico@), i) && image@
                    == ico@.subrange(
                    entry_offset(ico@, i),
                    entry_offset(ico@, i) + entry_size(ico@, i),
                ),
            None => !is_ico(ico@) || forall|i: int|
                0 <= i < entries(ico@) ==> !#[trigger] has_image(ico@, i),
        },
{
    if ico.len() < HEADER || ico[0] != 0 || ico[1] != 0 || ico[2] != 1 || ico[3] != 0 {
        return None;
    }
    let n: usize = ico.len();
    let count: usize = ico[4] as usize + 0x100 * (ico[5] as usize);
    let held: usize = (n - HEADER) / ENTRY;
    let upto: usize = if count <= held {
        count
    } else {
        held
    };
    assert(upto == entries(ico@));
    let mut best: Option<(u32, usize, usize)> = None;
    let ghost mut which: int = 0;
    let mut index: usize = 0;
    while index < upto
        invariant
            n == ico@.len(),
            n >= HEADER,
            upto == entries(ico@),
            upto <= (n - HEADER) / ENTRY as int,
            index <= upto,
            match best {
                Some((distance, offset, size)) => {
                    &&& closest(ico@, wanted as int, index as int, which)
                    &&& distance == gap(entry_width(ico@, which), wanted as int)
                    &&& offset == entry_offset(ico@, which)
                    &&& size == entry_size(ico@, which)
                },
                None => forall|k: int| 0 <= k < index ==> !#[trigger] has_image(ico@, k),
            },
        decreases upto - index,
    {
        assert((index + 1) * ENTRY <= upto * ENTRY) by (nonlinear_arith)
            requires
                index < upto,
                ENTRY == 16,
        ;
        assert(upto * ENTRY <= n - HEADER) by (nonlinear_arith)
            requires
                upto <= (n - HEADER) / ENTRY as int,
                ENTRY == 16,
        ;
        let at: usize = HEADER + index * ENTRY;
        assert(at == entry_at(index as int));
        let width: u32 = if ico[at] == 0 {
            256
        } else {
            ico[at] as u32
        };
        let size: u64 = read32(ico, at + 8);
        let offset: u64 = read32(ico, at + 12);
        if offset + size <= n as u64 && size != 0 {
            let distance: u32 = if width >= wanted {
                width - wanted
            } else {
                wanted - width
            };
            let better = match best {
                Some((least, _, _)) => distance < least,
                None => true,
            };
            assert(has_image(ico@, index as int));
            if better {
                best = Some((distance, offset as usize, size as usize));
                proof {
                    which = index as int;
                }
            }
        } else {
            assert(!has_image(ico@, index as int));
        }
        index += 1;
    }
    match best {
        Some((_, offset, size)) => {
            assert(closest(ico@, wanted as int, entries(ico@), which));
            Some(slice_subrange(ico, offset, offset + size))
        },
        None => None,
    }
}

/// Reading a command's number back gives the command; no number stands for two,
/// and none is zero, which is what the menu reports when nothing was chosen.
pub proof fn command_ids_round_trip(command: TrayCommand, other: TrayCommand)
    ensures
        TrayCommand::numbered(command.number()) == Some(command),
        command.number() == other.number() ==> command == other,
        TrayCommand::numbered(0) is None,
{
}

/// Every command is in the menu, and Quit is the last and stands apart.
pub proof fn the_menu_is_complete(command: TrayCommand)
    ensures
        MENU_ORDER@.contains(command),
        MENU_ORDER@.last() is Quit,
        MENU_ORDER@[MENU_ORDER@.len() - 2] is About,
{
    let order = MENU_ORDER@;
    assert(order[0] is ToggleDictation && order[1] is OpenHistory && order[2] is OpenDictionary
        && order[3] is OpenSettings && order[4] is OpenOnboarding && order[5] is About
        && order[6] is Quit);
    assert(order[command.number() - 1] == command);
}

/// A click on a line of the menu emits the command that the line stands for.
pub proof fn a_chosen_line_emits_its_command(command: TrayCommand, lparam: u64)
    ensures
        reaction(WM_COMMAND, command.number() as u64, lparam) == TrayAction::Emit(command),
{
}

/// The image that is picked is one: two places that are both closest are the
/// same.
pub proof fn the_closest_image_is_unique(ico: Seq<u8>, wanted: int, upto: int, a: int, b: int)
    requires
        closest(ico, wanted, upto, a),
        closest(ico, wanted, upto, b),
    ensures
        a == b,
{
}

} // verus!
