//! What the desktop reports, and the rules on what to send back to it.

use vstd::prelude::*;

use crate::text::{chars_of, opt_text, slice_of, string_of, utf16, utf16_of};
use crate::transcription::{ContextView, DictationContext};

verus! {

/// The mark on every key event this program synthesises itself, so that the
/// keyboard hook can tell them from the user's typing.
pub const SYNTHETIC_TAG: usize = 0x4A4F_5400;

/// Text with more characters never goes through synthetic typing: applications
/// that drop fast synthetic input turn a long transcript into a half-typed one.
pub const MAX_TYPED_CHARS: usize = 240;

/// What the focused UI element is.
#[derive(Debug, Clone, Copy, PartialEq, Eq, Structural)]
pub enum FocusKind {
    /// A real text control that will accept typed characters.
    EditableText,
    /// A password box, or the secure desktop. Never type or paste here.
    Password,
    /// Focus is somewhere that will not take text, or nobody could say.
    Unknown,
}

/// The control type of a single-line or multi-line edit box.
pub const EDIT_CONTROL: i32 = 50004;

/// The control type of a document.
pub const DOCUMENT_CONTROL: i32 = 50030;

/// What is known of the focused element.
#[derive(Debug, Clone, Copy, PartialEq, Eq, Structural)]
pub struct Element {
    pub is_password: bool,
    pub control_type: i32,
    /// It exposes its text, so it takes typed characters even when its control
    /// type is something bespoke (terminals, editors).
    pub has_text: bool,
}

pub open spec fn focus(
    inspectable: bool,
    has_foreground: bool,
    element: Option<Element>,
) -> FocusKind {
    if !inspectable {
        FocusKind::Unknown
    } else {
        match element {
            None => if has_foreground {
                FocusKind::Unknown
            } else {
                FocusKind::Password
            },
            Some(element) => if element.is_password {
                FocusKind::Password
            } else if element.control_type == EDIT_CONTROL || element.control_type
                == DOCUMENT_CONTROL || element.has_text {
                FocusKind::EditableText
            } else {
                FocusKind::Unknown
            },
        }
    }
}

/// What has focus. With the secure desktop up there is no element to fetch and
/// no foreground window, which is exactly the case never to type into.
pub fn focus_kind(inspectable: bool, has_foreground: bool, element: Option<Element>) -> (
    kind: FocusKind)
    ensures
        kind == focus(inspectable, has_foreground, element),
{
    if !inspectable {
        return FocusKind::Unknown;
    }
    match element {
        None => {
            if has_foreground {
                FocusKind::Unknown
            } else {
                FocusKind::Password
            }
        },
        Some(element) => {
            if element.is_password {
                FocusKind::Password
            } else if element.control_type == EDIT_CONTROL || element.control_type
                == DOCUMENT_CONTROL || element.has_text {
                FocusKind::EditableText
            } else {
                FocusKind::Unknown
            }
        },
    }
}

/// Who owns the foreground window right now.
#[derive(Debug)]
pub struct ForegroundApp {
    pub pid: Option<u32>,
    /// Process image name, such as `Code.exe`.
    pub exe: Option<String>,
    /// Window title, the closest thing there is to an app name a user
    /// recognises.
    pub name: Option<String>,
}

impl Default for ForegroundApp {
    fn default() -> (app: Self)
        ensures
            app.pid is None,
            app.exe is None,
            app.name is None,
    {
        ForegroundApp { pid: None, exe: None, name: None }
    }
}

impl ForegroundApp {
    /// The app as the context of a dictation. Without a window title the image
    /// name has to do.
    pub fn as_context(&self) -> (context: DictationContext)
        ensures
            context@ == (ContextView {
                target_app_exe: opt_text(self.exe),
                target_app_name: match opt_text(self.name) {
                    Some(name) => Some(name),
                    None => opt_text(self.exe),
                },
                target_pid: self.pid,
            }),
    {
        let target_app_name = match &self.name {
            Some(name) => Some(name.clone()),
            None => self.exe.clone(),
        };
        DictationContext {
            target_app_exe: self.exe.clone(),
            target_app_name,
            target_pid: self.pid,
        }
    }
}

/// What stands after the last backslash of a path, or all of it.
pub open spec fn image_name(path: Seq<char>) -> Seq<char>
    decreases path.len(),
{
    if path.len() == 0 || path.last() == '\\' {
        Seq::empty()
    } else {
        image_name(path.drop_last()).push(path.last())
    }
}

/// The process image name in a full path.
pub fn process_image_name(path: &str) -> (name: String)
    ensures
        name@ == image_name(path@),
{
    let chars = chars_of(path);
    let n: usize = chars.len();
    let mut from: usize = n;
    assert(chars@.take(n as int) =~= chars@);
    assert(image_name(chars@) =~= image_name(chars@) + chars@.subrange(n as int, n as int));
    while from > 0 && chars[from - 1] != '\\'
        invariant
            from <= n,
            n == chars@.len(),
            image_name(chars@) == image_name(chars@.take(from as int)) + chars@.subrange(
                from as int,
                n as int,
            ),
        decreases from,
    {
        proof {
            let here = chars@.take(from as int);
            assert(here.drop_last() =~= chars@.take(from - 1));
            assert(image_name(here) == image_name(chars@.take(from - 1)).push(here.last()));
            assert(image_name(chars@) =~= image_name(chars@.take(from - 1)) + chars@.subrange(
                from - 1,
                n as int,
            ));
        }
        from -= 1;
    }
    proof {
        assert(image_name(chars@.take(from as int)) =~= Seq::<char>::empty());
        assert(image_name(chars@) =~= chars@.subrange(from as int, n as int));
    }
    let name = slice_of(&chars, from, n);
    string_of(&name)
}

/// One synthetic key event: a character's UTF-16 unit going down or up.
#[derive(Debug, Clone, Copy, PartialEq, Eq, Structural)]
pub struct TypedUnit {
    pub unit: u16,
    pub up: bool,
}

/// Each unit goes down and comes up again.
pub open spec fn strokes(units: Seq<u16>) -> Seq<TypedUnit>
    decreases units.len(),
{
    if units.len() == 0 {
        Seq::empty()
    } else {
        strokes(units.drop_last()).push(TypedUnit { unit: units.last(), up: false }).push(
            TypedUnit { unit: units.last(), up: true },
        )
    }
}

/// The key events that type `text`; none for a text too long to type.
pub fn typed_events(text: &str) -> (events: Option<Vec<TypedUnit>>)
    ensures
        match events {
            Some(events) => text@.len() <= MAX_TYPED_CHARS && events@ == strokes(utf16(text@)),
            None => text@.len() > MAX_TYPED_CHARS,
        },
{
    let chars = chars_of(text);
    if chars.len() > MAX_TYPED_CHARS {
        return None;
    }
    let wide = utf16_of(&chars);
    let mut events: Vec<TypedUnit> = Vec::new();
    let mut i: usize = 0;
    assert(wide@.take(0) == Seq::<u16>::empty());
    while i < wide.len()
        invariant
            i <= wide@.len(),
            events@ == strokes(wide@.take(i as int)),
        decreases wide@.len() - i,
    {
        events.push(TypedUnit { unit: wide[i], up: false });
        events.push(TypedUnit { unit: wide[i], up: true });
        assert(wide@.take(i + 1).drop_last() == wide@.take(i as int));
        i += 1;
    }
    assert(wide@.take(wide@.len() as int) == wide@);
    Some(events)
}

/// One synthetic key event by virtual-key code.
#[derive(Debug, Clone, Copy, PartialEq, Eq, Structural)]
pub struct KeyStroke {
    pub vk: u16,
    pub up: bool,
}

pub const VK_CONTROL: u16 = 0x11;

/// The low byte of a key scan.
pub open spec fn low_byte(scan: i16) -> u16 {
    (scan as u16) & 0x00FF
}

/// The key events of Ctrl+V, given what the keyboard layout says of `v`: on a
/// Dvorak or AZERTY layout the key that produces it is not the one its letter
/// names. A layout without it cannot paste.
pub fn paste_keys(scan: i16) -> (keys: Option<Vec<KeyStroke>>)
    ensures
        match keys {
            Some(keys) => scan != -1 && keys@ == seq![
                KeyStroke { vk: VK_CONTROL, up: false },
                KeyStroke { vk: low_byte(scan), up: false },
                KeyStroke { vk: low_byte(scan), up: true },
                KeyStroke { vk: VK_CONTROL, up: true },
            ],
            None => scan == -1,
        },
{
    if scan == -1 {
        return None;
    }
    let vk: u16 = (scan as u16) & 0x00FF;
    let mut keys: Vec<KeyStroke> = Vec::new();
    keys.push(KeyStroke { vk: VK_CONTROL, up: false });
    keys.push(KeyStroke { vk, up: false });
    keys.push(KeyStroke { vk, up: true });
    keys.push(KeyStroke { vk: VK_CONTROL, up: true });
    Some(keys)
}

/// Clipboard formats backed by a handle rather than by memory, so that their
/// bytes cannot be copied and put back: bitmaps, metafiles and palettes. Device
/// independent bitmaps are memory, which is what keeps a copied screenshot.
pub open spec fn handle_backed(format: u32) -> bool {
    format == 2 || format == 3 || format == 9 || format == 14
}

/// Every clipboard format that can be put back, captured before the clipboard is
/// overwritten with a transcript.
#[derive(Debug)]
pub struct ClipboardSnapshot {
    pub entries: Vec<(u32, Vec<u8>)>,
}

impl View for ClipboardSnapshot {
    type V = Seq<(u32, Seq<u8>)>;

    open spec fn view(&self) -> Seq<(u32, Seq<u8>)> {
        self.entries@.map_values(|e: (u32, Vec<u8>)| (e.0, e.1@))
    }
}

impl Default for ClipboardSnapshot {
    fn default() -> (snapshot: Self)
        ensures
            snapshot@ == Seq::<(u32, Seq<u8>)>::empty(),
    {
        let snapshot = ClipboardSnapshot { entries: Vec::new() };
        assert(snapshot@ =~= Seq::<(u32, Seq<u8>)>::empty());
        snapshot
    }
}

impl ClipboardSnapshot {
    pub fn is_empty(&self) -> (empty: bool)
        ensures
            empty == (self@.len() == 0),
    {
        self.entries.len() == 0
    }

    /// Whether a format is worth reading at all.
    pub fn wants(format: u32) -> (yes: bool)
        ensures
            yes == !handle_backed(format),
    {
        !(format == 2 || format == 3 || format == 9 || format == 14)
    }

    /// Takes one format's bytes, if they could be read and put back.
    pub fn capture(&mut self, format: u32, bytes: Option<Vec<u8>>)
        ensures
            final(self)@ == (match bytes {
                Some(bytes) => if handle_backed(format) {
                    old(self)@
                } else {
                    old(self)@.push((format, bytes@))
                },
                None => old(self)@,
            }),
    {
        match bytes {
            Some(bytes) => {
                if Self::wants(format) {
                    let ghost taken = bytes@;
                    self.entries.push((format, bytes));
                    assert(self@ =~= old(self)@.push((format, taken)));
                }
            },
            None => {},
        }
    }
}

/// Little-endian bytes of UTF-16 units.
pub open spec fn unit_bytes(units: Seq<u16>) -> Seq<u8>
    decreases units.len(),
{
    if units.len() == 0 {
        Seq::empty()
    } else {
        unit_bytes(units.drop_last()).push((units.last() % 256) as u8).push(
            (units.last() / 256) as u8,
        )
    }
}

/// What the clipboard is given: the text in UTF-16 with a terminating zero.
pub fn clipboard_bytes(text: &str) -> (bytes: Vec<u8>)
    ensures
        bytes@ == unit_bytes(utf16(text@).push(0)),
{
    let mut wide = utf16_of(&chars_of(text));
    wide.push(0);
    let mut bytes: Vec<u8> = Vec::new();
    let mut i: usize = 0;
    assert(wide@.take(0) == Seq::<u16>::empty());
    while i < wide.len()
        invariant
            i <= wide@.len(),
            bytes@ == unit_bytes(wide@.take(i as int)),
        decreases wide@.len() - i,
    {
        bytes.push((wide[i] % 256) as u8);
        bytes.push((wide[i] / 256) as u8);
        assert(wide@.take(i + 1).drop_last() == wide@.take(i as int));
        i += 1;
    }
    assert(wide@.take(wide@.len() as int) == wide@);
    bytes
}

/// A password field is never taken for anything else, and nothing is typed into
/// what is not known to take text: an edit box, a document, or an element that
/// shows its text. Without an element and without a foreground window the secure
/// desktop is up.
pub proof fn focus_is_what_is_known_of_it(
    inspectable: bool,
    has_foreground: bool,
    element: Option<Element>,
    kind: FocusKind,
)
    requires
        call_ensures(focus_kind, (inspectable, has_foreground, element), kind),
    ensures
        kind == FocusKind::Password <==> inspectable && ((element matches Some(e) && e.is_password)
            || (element is None && !has_foreground)),
        kind == FocusKind::EditableText <==> inspectable && (element matches Some(e)
            && !e.is_password && (e.control_type == 50004 || e.control_type == 50030
            || e.has_text)),
{
}

/// The context of a dictation is the program in front: its process, its image name,
/// and its window title or, without one, the image name again.
pub proof fn the_context_is_the_program_in_front(app: ForegroundApp, context: DictationContext)
    requires
        call_ensures(ForegroundApp::as_context, (&app,), context),
    ensures
        context@.target_pid == app.pid,
        context@.target_app_exe == opt_text(app.exe),
        app.name is Some ==> context@.target_app_name == opt_text(app.name),
        app.name is None ==> context@.target_app_name == opt_text(app.exe),
{
}

/// The image name is what stands behind the last backslash.
pub proof fn an_image_name_ends_its_path(folder: Seq<char>, name: Seq<char>)
    requires
        !name.contains('\\'),
    ensures
        image_name(folder + seq!['\\'] + name) == name,
        image_name(name) == name,
    decreases name.len(),
{
    let path = folder + seq!['\\'] + name;
    if name.len() == 0 {
        assert(path.last() == '\\');
        assert(image_name(path) =~= name);
        assert(image_name(name) =~= name);
    } else {
        let less = name.drop_last();
        let c = name.last();
        assert(name.contains(c));
        assert(!less.contains('\\')) by {
            if less.contains('\\') {
                let i = choose|i: int| 0 <= i < less.len() && less[i] == '\\';
                assert(name[i] == '\\');
            }
        }
        an_image_name_ends_its_path(folder, less);
        assert(path.drop_last() =~= folder + seq!['\\'] + less);
        assert(less.push(c) =~= name);
    }
}

/// Every unit is typed once, in order: it goes down and comes up again before the
/// next.
pub proof fn every_unit_goes_down_and_up(units: Seq<u16>, i: int)
    requires
        0 <= i < units.len(),
    ensures
        strokes(units).len() == 2 * units.len(),
        strokes(units)[2 * i] == (TypedUnit { unit: units[i], up: false }),
        strokes(units)[2 * i + 1] == (TypedUnit { unit: units[i], up: true }),
    decreases units.len(),
{
    let less = units.drop_last();
    if i < less.len() {
        every_unit_goes_down_and_up(less, i);
        assert(less[i] == units[i]);
    } else if less.len() > 0 {
        every_unit_goes_down_and_up(less, 0);
    } else {
        assert(strokes(less).len() == 0);
    }
}

/// A text is typed whole or not at all: up to 240 characters.
pub proof fn a_text_is_typed_whole(text: &str, events: Option<Vec<TypedUnit>>)
    requires
        call_ensures(typed_events, (text,), events),
    ensures
        events is Some <==> text@.len() <= 240,
        events matches Some(list) ==> list@ == strokes(utf16(text@)),
{
}

/// Every unit is two bytes, the low one first.
pub proof fn units_are_little_endian(units: Seq<u16>, i: int)
    requires
        0 <= i < units.len(),
    ensures
        unit_bytes(units).len() == 2 * units.len(),
        unit_bytes(units)[2 * i] + 256 * unit_bytes(units)[2 * i + 1] == units[i],
    decreases units.len(),
{
    let less = units.drop_last();
    if i < less.len() {
        units_are_little_endian(less, i);
        assert(less[i] == units[i]);
    } else if less.len() > 0 {
        units_are_little_endian(less, 0);
    } else {
        assert(unit_bytes(less).len() == 0);
    }
}

/// Ctrl+V is Control down, the key down and up, Control up; the key is the one the
/// layout names, and without one there is no paste.
pub proof fn a_paste_holds_control_around_the_key(scan: i16, keys: Option<Vec<KeyStroke>>)
    requires
        call_ensures(paste_keys, (scan,), keys),
    ensures
        keys is None <==> scan == -1,
        keys matches Some(list) ==> {
            &&& list@.len() == 4
            &&& list@[0] == (KeyStroke { vk: 17, up: false })
            &&& list@[3] == (KeyStroke { vk: 17, up: true })
            &&& !list@[1].up && list@[2].up && list@[1].vk == list@[2].vk
            &&& 0 <= scan ==> list@[1].vk == scan % 256
        },
{
    let byte = (scan as u16) & 0x00FF;
    assert(byte == (scan as u16) % 256) by (bit_vector)
        requires
            byte == (scan as u16) & 0x00FF,
    ;
}

/// Every format of the clipboard is worth keeping but bitmaps, metafiles and
/// palettes, which are handles and not bytes.
pub proof fn only_handles_are_left_out(format: u32, yes: bool)
    requires
        call_ensures(ClipboardSnapshot::wants, (format,), yes),
    ensures
        yes <==> format != 2 && format != 3 && format != 9 && format != 14,
{
}

} // verus!
