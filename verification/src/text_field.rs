//! A single-line text field. Text arrives as edits of ranges, some of them
//! provisional while an input method composes; keys only move the caret, delete,
//! select, copy and paste.

use vstd::prelude::*;

use crate::text::{
    boundary,
    byte_at,
    byte_len,
    char_index_of,
    chars_of,
    lemma_byte_step,
    lemma_bytes_grow,
    lemma_char_index,
    push_all,
    same_text,
    slice_of,
    string_of,
    width_of,
};

verus! {

/// The field: what it holds, what is selected, and what is still being composed.
/// Positions count characters.
#[derive(Debug)]
pub struct TextField {
    pub content: Vec<char>,
    /// Where the selection starts, and where the caret is. The two are the same
    /// if nothing is selected.
    pub anchor: usize,
    pub caret: usize,
    /// The composition in progress.
    pub marked: Option<(usize, usize)>,
    /// Shown as bullets, and never copied from.
    pub masked: bool,
}

pub struct FieldView {
    pub content: Seq<char>,
    pub anchor: int,
    pub caret: int,
    pub marked: Option<(int, int)>,
    pub masked: bool,
}

impl View for TextField {
    type V = FieldView;

    open spec fn view(&self) -> FieldView {
        FieldView {
            content: self.content@,
            anchor: self.anchor as int,
            caret: self.caret as int,
            marked: match self.marked {
                Some((a, b)) => Some((a as int, b as int)),
                None => None,
            },
            masked: self.masked,
        }
    }
}

/// A text on one line: line breaks become spaces rather than cutting off what
/// comes after them.
pub open spec fn on_one_line(s: Seq<char>) -> Seq<char> {
    s.map_values(
        |c: char|
            if c == '\n' || c == '\r' {
                ' '
            } else {
                c
            },
    )
}

fn one_line(text: &str) -> (out: Vec<char>)
    ensures
        out@ == on_one_line(text@),
{
    let chars = chars_of(text);
    let mut out: Vec<char> = Vec::new();
    let mut i: usize = 0;
    while i < chars.len()
        invariant
            i <= chars@.len(),
            out@ == on_one_line(chars@.take(i as int)),
        decreases chars@.len() - i,
    {
        let c: char = chars[i];
        let ghost before = chars@.take(i as int);
        if c == '\n' || c == '\r' {
            out.push(' ');
        } else {
            out.push(c);
        }
        assert(chars@.take(i + 1) =~= before.push(c));
        assert(on_one_line(before.push(c)) =~= on_one_line(before).push(out@.last()));
        i += 1;
    }
    assert(chars@.take(i as int) =~= chars@);
    out
}

/// How many UTF-16 units a character takes.
pub open spec fn unit_width(c: char) -> nat {
    if (c as int) < 0x10000 {
        1
    } else {
        2
    }
}

fn units_of(c: char) -> (n: usize)
    ensures
        n == unit_width(c),
        1 <= n <= 2,
{
    if crate::text::code_point(c) < 0x10000 {
        1
    } else {
        2
    }
}

/// How many UTF-16 units a text takes.
pub open spec fn unit_len(s: Seq<char>) -> nat
    decreases s.len(),
{
    if s.len() == 0 {
        0
    } else {
        unit_len(s.drop_last()) + unit_width(s.last())
    }
}

/// The unit at which character `i` of a text starts.
pub open spec fn unit_at(s: Seq<char>, i: int) -> nat {
    unit_len(s.take(i))
}

/// The first character from `i` on that does not start before a unit; the end if
/// there is none.
pub open spec fn char_from(s: Seq<char>, unit: int, i: int) -> int
    decreases s.len() - i,
{
    if i >= s.len() {
        s.len() as int
    } else if unit_at(s, i) >= unit {
        i
    } else {
        char_from(s, unit, i + 1)
    }
}

/// The character at a unit.
pub open spec fn char_at_unit(s: Seq<char>, unit: int) -> int {
    char_from(s, unit, 0)
}

/// The character at a UTF-16 offset. Past the end it is the end.
fn char_of_unit(chars: &Vec<char>, unit: usize) -> (at: usize)
    ensures
        at == char_at_unit(chars@, unit as int),
        at <= chars@.len(),
{
    let ghost s = chars@;
    let n: usize = chars.len();
    let mut left: usize = unit;
    let mut i: usize = 0;
    assert(s.take(0) =~= Seq::<char>::empty());
    while i < n && left > 0
        invariant
            n == s.len(),
            i <= n,
            s == chars@,
            unit_at(s, i as int) < unit ==> left == unit - unit_at(s, i as int),
            unit_at(s, i as int) >= unit ==> left == 0,
            char_at_unit(s, unit as int) == char_from(s, unit as int, i as int),
        decreases n - i,
    {
        let w: usize = units_of(chars[i]);
        proof {
            lemma_unit_step(s, i as int);
        }
        if left >= w {
            left -= w;
        } else {
            left = 0;
        }
        i += 1;
    }
    i
}

proof fn lemma_unit_step(s: Seq<char>, i: int)
    requires
        0 <= i < s.len(),
    ensures
        unit_at(s, i + 1) == unit_at(s, i) + unit_width(s[i]),
{
    assert(s.take(i + 1).drop_last() =~= s.take(i));
}

proof fn lemma_units_grow(s: Seq<char>, i: int, j: int)
    requires
        0 <= i <= j <= s.len(),
    ensures
        unit_at(s, i) + (j - i) <= unit_at(s, j),
    decreases j - i,
{
    if i < j {
        lemma_unit_step(s, j - 1);
        lemma_units_grow(s, i, j - 1);
    }
}

pub open spec fn least(a: int, b: int) -> int {
    if a <= b {
        a
    } else {
        b
    }
}

pub open spec fn most(a: int, b: int) -> int {
    if a >= b {
        a
    } else {
        b
    }
}

/// A text with a part of it replaced.
pub open spec fn spliced(s: Seq<char>, from: int, to: int, text: Seq<char>) -> Seq<char> {
    s.take(from) + text + s.skip(to)
}

impl FieldView {
    /// Every position is in the text.
    pub open spec fn well_formed(self) -> bool {
        let n = self.content.len();
        &&& 0 <= self.anchor <= n
        &&& 0 <= self.caret <= n
        &&& self.marked matches Some((a, b)) ==> 0 <= a <= b <= n
    }

    pub open spec fn has_selection(self) -> bool {
        self.anchor != self.caret
    }

    /// The selection does not run backwards.
    pub open spec fn forward(self) -> bool {
        self.anchor <= self.caret
    }

    /// A range of UTF-16 units as characters.
    pub open spec fn chars_in(self, from: int, to: int) -> (int, int) {
        let a = char_at_unit(self.content, from);
        let b = char_at_unit(self.content, to);
        (least(a, b), most(a, b))
    }

    /// The range an edit is for: the one that is given, else the composition,
    /// else the selection.
    pub open spec fn target(self, range: Option<(usize, usize)>) -> (int, int) {
        match range {
            Some((from, to)) => self.chars_in(from as int, to as int),
            None => match self.marked {
                Some(marked) => marked,
                None => (self.anchor, self.caret),
            },
        }
    }

    /// The field with a range replaced and the caret after what replaced it.
    pub open spec fn replaced(self, from: int, to: int, text: Seq<char>) -> FieldView {
        let n = self.content.len() as int;
        let a = least(from, n);
        let b = least(to, n);
        let caret = a + text.len();
        FieldView {
            content: spliced(self.content, a, b, on_one_line(text)),
            anchor: caret,
            caret,
            marked: None,
            ..self
        }
    }

    /// The field with a composition in a range's place. The caret is given as a
    /// UTF-16 offset in the composition.
    pub open spec fn composed(
        self,
        from: int,
        to: int,
        text: Seq<char>,
        selected: Option<usize>,
    ) -> FieldView {
        let n = self.content.len() as int;
        let a = least(from, n);
        let b = least(to, n);
        let end = a + text.len();
        let caret = match selected {
            Some(within) => a + char_at_unit(on_one_line(text), within as int),
            None => end,
        };
        FieldView {
            content: spliced(self.content, a, b, on_one_line(text)),
            anchor: caret,
            caret,
            marked: if text.len() == 0 {
                None
            } else {
                Some((a, end))
            },
            ..self
        }
    }

    pub open spec fn before_caret(self) -> int {
        if self.caret > 0 {
            self.caret - 1
        } else {
            0
        }
    }

    pub open spec fn after_caret(self) -> int {
        if self.caret < self.content.len() {
            self.caret + 1
        } else {
            self.caret
        }
    }

    pub open spec fn moved(self, to: int, extend: bool) -> FieldView {
        FieldView {
            anchor: if extend {
                self.anchor
            } else {
                to
            },
            caret: to,
            ..self
        }
    }

    pub open spec fn backspaced(self) -> FieldView {
        if self.has_selection() {
            self.replaced(self.anchor, self.caret, Seq::empty())
        } else if self.caret > 0 {
            self.replaced(self.caret - 1, self.caret, Seq::empty())
        } else {
            self
        }
    }

    pub open spec fn deleted(self) -> FieldView {
        if self.has_selection() {
            self.replaced(self.anchor, self.caret, Seq::empty())
        } else if self.caret < self.content.len() {
            self.replaced(self.caret, self.caret + 1, Seq::empty())
        } else {
            self
        }
    }

    /// Part of the text as it is shown.
    pub open spec fn shown(self, from: int, to: int) -> Seq<char> {
        if self.masked {
            Seq::new((to - from) as nat, |i: int| '•')
        } else {
            self.content.subrange(from, to)
        }
    }

    /// Whether what is drawn changes at a position.
    pub open spec fn cut(self, i: int) -> bool {
        ||| i == 0
        ||| i == self.content.len()
        ||| i == self.anchor
        ||| i == self.caret
        ||| (self.marked matches Some((a, b)) && (i == a || i == b))
    }

    /// The last cut before a position.
    pub open spec fn cut_before(self, i: int) -> int
        decreases i,
    {
        if i <= 1 || self.cut(i - 1) {
            i - 1
        } else {
            self.cut_before(i - 1)
        }
    }

    /// A piece of text that is drawn alike, and whether the caret stands before
    /// it.
    pub open spec fn run(self, from: int, to: int, focused: bool) -> RunView {
        RunView {
            text: self.shown(from, to),
            caret_before: focused && !self.has_selection() && from == self.caret,
            selected: self.has_selection() && from >= self.anchor && to <= self.caret,
            composing: self.marked matches Some((a, b)) && from >= a && to <= b,
        }
    }

    /// The pieces up to a cut.
    pub open spec fn runs(self, upto: int, focused: bool) -> Seq<RunView>
        decreases upto,
    {
        if upto <= 0 {
            Seq::empty()
        } else {
            let from = self.cut_before(upto);
            if 0 <= from < upto {
                self.runs(from, focused).push(self.run(from, upto, focused))
            } else {
                Seq::empty()
            }
        }
    }
}

/// A piece of text that is drawn alike.
#[derive(Debug, PartialEq, Eq)]
pub struct Run {
    pub text: String,
    pub caret_before: bool,
    pub selected: bool,
    pub composing: bool,
}

pub struct RunView {
    pub text: Seq<char>,
    pub caret_before: bool,
    pub selected: bool,
    pub composing: bool,
}

impl View for Run {
    type V = RunView;

    open spec fn view(&self) -> RunView {
        RunView {
            text: self.text@,
            caret_before: self.caret_before,
            selected: self.selected,
            composing: self.composing,
        }
    }
}

pub open spec fn run_views(runs: Seq<Run>) -> Seq<RunView> {
    runs.map_values(|r: Run| r@)
}

/// What the field draws.
#[derive(Debug, PartialEq, Eq)]
pub enum FieldFace {
    /// Nothing is in it.
    Placeholder,
    /// The pieces of the text, and whether the caret stands behind the last.
    Text { runs: Vec<Run>, caret_at_end: bool },
}

/// What a key did.
#[derive(Debug, PartialEq, Eq)]
pub enum KeyResult {
    /// The key is not for the field.
    Ignored,
    Changed,
    /// Put this on the clipboard.
    Copy(String),
    /// Enter.
    Submit,
}

pub enum KeyResultView {
    Ignored,
    Changed,
    Copy(Seq<char>),
    Submit,
}

impl View for KeyResult {
    type V = KeyResultView;

    open spec fn view(&self) -> KeyResultView {
        match self {
            KeyResult::Ignored => KeyResultView::Ignored,
            KeyResult::Changed => KeyResultView::Changed,
            KeyResult::Copy(text) => KeyResultView::Copy(text@),
            KeyResult::Submit => KeyResultView::Submit,
        }
    }
}

/// What a key with the control key held does.
pub open spec fn on_control(field: FieldView, key: Seq<char>, clipboard: Option<Seq<char>>) -> (
    FieldView,
    KeyResultView,
) {
    if key == "v"@ {
        match clipboard {
            Some(text) => (
                field.replaced(field.anchor, field.caret, text),
                KeyResultView::Changed,
            ),
            None => (field, KeyResultView::Changed),
        }
    } else if key == "a"@ {
        (
            FieldView { anchor: 0, caret: field.content.len() as int, ..field },
            KeyResultView::Changed,
        )
    } else if key == "c"@ && field.has_selection() && !field.masked {
        (field, KeyResultView::Copy(field.content.subrange(field.anchor, field.caret)))
    } else {
        (field, KeyResultView::Ignored)
    }
}

/// What any other key does. One that produces text is ignored here: the text
/// arrives as an edit.
pub open spec fn on_plain(field: FieldView, key: Seq<char>, shift: bool) -> (
    FieldView,
    KeyResultView,
) {
    if key == "backspace"@ {
        (field.backspaced(), KeyResultView::Changed)
    } else if key == "delete"@ {
        (field.deleted(), KeyResultView::Changed)
    } else if key == "left"@ {
        (field.moved(field.before_caret(), shift), KeyResultView::Changed)
    } else if key == "right"@ {
        (field.moved(field.after_caret(), shift), KeyResultView::Changed)
    } else if key == "home"@ {
        (field.moved(0, shift), KeyResultView::Changed)
    } else if key == "end"@ {
        (field.moved(field.content.len() as int, shift), KeyResultView::Changed)
    } else if key == "enter"@ {
        (field, KeyResultView::Submit)
    } else {
        (field, KeyResultView::Ignored)
    }
}

proof fn lemma_splice(s: Seq<char>, from: int, to: int, text: Seq<char>)
    requires
        0 <= from <= to <= s.len(),
    ensures
        spliced(s, from, to, text).len() == s.len() - (to - from) + text.len(),
{
}

impl TextField {
    pub fn new() -> (field: Self)
        ensures
            field@ == (FieldView {
                content: Seq::empty(),
                anchor: 0,
                caret: 0,
                marked: None,
                masked: false,
            }),
            field@.well_formed(),
    {
        let content: Vec<char> = Vec::new();
        assert(content@ =~= Seq::<char>::empty());
        TextField { content, anchor: 0, caret: 0, marked: None, masked: false }
    }

    pub fn masked(self) -> (field: Self)
        ensures
            field@ == (FieldView { masked: true, ..self@ }),
    {
        TextField {
            content: self.content,
            anchor: self.anchor,
            caret: self.caret,
            marked: self.marked,
            masked: true,
        }
    }

    pub fn content(&self) -> (text: String)
        ensures
            text@ == self@.content,
    {
        string_of(&self.content)
    }

    pub fn is_empty(&self) -> (empty: bool)
        ensures
            empty == (self@.content.len() == 0),
    {
        self.content.len() == 0
    }

    pub fn set_content(&mut self, text: &str)
        ensures
            final(self)@ == (FieldView {
                content: text@,
                anchor: text@.len() as int,
                caret: text@.len() as int,
                marked: None,
                masked: old(self).masked,
            }),
            final(self)@.well_formed(),
    {
        self.content = chars_of(text);
        self.anchor = self.content.len();
        self.caret = self.content.len();
        self.marked = None;
    }

    pub fn take_content(&mut self) -> (text: String)
        ensures
            text@ == old(self)@.content,
            final(self)@ == (FieldView {
                content: Seq::empty(),
                anchor: 0,
                caret: 0,
                marked: None,
                masked: old(self).masked,
            }),
            final(self)@.well_formed(),
    {
        let text = string_of(&self.content);
        self.content = Vec::new();
        self.anchor = 0;
        self.caret = 0;
        self.marked = None;
        assert(self.content@ =~= Seq::<char>::empty());
        text
    }

    /// The byte at which a character starts.
    fn byte_of(&self, at: usize) -> (byte: usize)
        requires
            at <= self@.content.len(),
            byte_len(self@.content) <= usize::MAX,
        ensures
            byte == byte_at(self@.content, at as int),
    {
        let mut byte: usize = 0;
        let mut i: usize = 0;
        let ghost s = self.content@;
        assert(s.take(0) =~= Seq::<char>::empty());
        assert(s.take(s.len() as int) =~= s);
        while i < at
            invariant
                i <= at <= s.len(),
                s == self.content@,
                byte == byte_at(s, i as int),
                byte_at(s, s.len() as int) <= usize::MAX,
            decreases at - i,
        {
            let w: usize = width_of(self.content[i]);
            proof {
                lemma_byte_step(s, i as int);
                if i + 1 < s.len() {
                    lemma_bytes_grow(s, i + 1, s.len() as int);
                }
            }
            byte += w;
            i += 1;
        }
        byte
    }

    /// The selection, in bytes.
    pub fn selection(&self) -> (range: (usize, usize))
        requires
            self@.well_formed(),
            byte_len(self@.content) <= usize::MAX,
        ensures
            range.0 == byte_at(self@.content, self@.anchor),
            range.1 == byte_at(self@.content, self@.caret),
    {
        (self.byte_of(self.anchor), self.byte_of(self.caret))
    }

    /// The composition, in bytes.
    pub fn marked_bytes(&self) -> (range: Option<(usize, usize)>)
        requires
            self@.well_formed(),
            byte_len(self@.content) <= usize::MAX,
        ensures
            match range {
                Some((a, b)) => self@.marked matches Some((from, to)) && a == byte_at(
                    self@.content,
                    from,
                ) && b == byte_at(self@.content, to),
                None => self@.marked is None,
            },
    {
        match self.marked {
            Some((from, to)) => Some((self.byte_of(from), self.byte_of(to))),
            None => None,
        }
    }

    /// The unit at which a character starts.
    fn unit_of(&self, at: usize) -> (unit: usize)
        requires
            at <= self@.content.len(),
            unit_len(self@.content) <= usize::MAX,
        ensures
            unit == unit_at(self@.content, at as int),
    {
        let mut unit: usize = 0;
        let mut i: usize = 0;
        let ghost s = self.content@;
        assert(s.take(0) =~= Seq::<char>::empty());
        assert(s.take(s.len() as int) =~= s);
        while i < at
            invariant
                i <= at <= s.len(),
                s == self.content@,
                unit == unit_at(s, i as int),
                unit_at(s, s.len() as int) <= usize::MAX,
            decreases at - i,
        {
            let w: usize = units_of(self.content[i]);
            proof {
                lemma_unit_step(s, i as int);
                lemma_units_grow(s, i + 1, s.len() as int);
            }
            unit += w;
            i += 1;
        }
        unit
    }

    /// The UTF-16 offset of a byte at which a character starts; the end for one
    /// past it.
    pub fn byte_to_utf16(&self, byte: usize) -> (unit: usize)
        requires
            unit_len(self@.content) <= usize::MAX,
            byte_len(self@.content) <= byte || boundary(self@.content, byte as int),
        ensures
            forall|i: int|
                0 <= i <= self@.content.len() && #[trigger] byte_at(self@.content, i) == byte
                    ==> unit == unit_at(self@.content, i),
            byte_len(self@.content) <= byte ==> unit == unit_len(self@.content),
    {
        let n: usize = self.content.len();
        let ghost s = self.content@;
        assert(s.take(n as int) =~= s);
        let at: usize = match char_index_of(&self.content, byte) {
            Some(i) => i,
            None => n,
        };
        proof {
            assert forall|i: int| 0 <= i <= s.len() && #[trigger] byte_at(s, i) == byte implies i
                == at by {
                lemma_char_index(s, i);
                assert(boundary(s, byte as int));
            }
            if byte_len(s) <= byte {
                if at < n {
                    lemma_bytes_grow(s, at as int, n as int);
                }
            }
        }
        self.unit_of(at)
    }

    /// The byte at a UTF-16 offset. Past the end it is the end.
    pub fn utf16_to_byte(&self, offset: usize) -> (byte: usize)
        requires
            byte_len(self@.content) <= usize::MAX,
        ensures
            byte == byte_at(self@.content, char_at_unit(self@.content, offset as int)),
    {
        let at = char_of_unit(&self.content, offset);
        self.byte_of(at)
    }

    fn range_of_units(&self, from: usize, to: usize) -> (range: (usize, usize))
        ensures
            (range.0 as int, range.1 as int) == self@.chars_in(from as int, to as int),
            range.0 <= range.1 <= self@.content.len(),
    {
        let a = char_of_unit(&self.content, from);
        let b = char_of_unit(&self.content, to);
        if a <= b {
            (a, b)
        } else {
            (b, a)
        }
    }

    fn splice(&mut self, from: usize, to: usize, text: &Vec<char>)
        requires
            from <= to <= old(self)@.content.len(),
        ensures
            final(self)@ == (FieldView {
                content: spliced(old(self)@.content, from as int, to as int, text@),
                ..old(self)@
            }),
    {
        let n: usize = self.content.len();
        let mut out = slice_of(&self.content, 0, from);
        push_all(&mut out, text);
        let tail = slice_of(&self.content, to, n);
        push_all(&mut out, &tail);
        assert(out@ =~= spliced(self.content@, from as int, to as int, text@));
        self.content = out;
    }

    /// Replaces a range with a text and leaves the caret after it.
    pub fn replace(&mut self, from: usize, to: usize, text: &str)
        requires
            least(from as int, old(self)@.content.len() as int) <= least(
                to as int,
                old(self)@.content.len() as int,
            ),
        ensures
            final(self)@ == old(self)@.replaced(from as int, to as int, text@),
            final(self)@.well_formed(),
    {
        let words = one_line(text);
        let n: usize = self.content.len();
        let a: usize = if from <= n {
            from
        } else {
            n
        };
        let b: usize = if to <= n {
            to
        } else {
            n
        };
        proof {
            lemma_splice(self.content@, a as int, b as int, words@);
        }
        self.splice(a, b, &words);
        let length: usize = self.content.len();
        assert(a + words@.len() <= length);
        let caret: usize = a + words.len();
        self.anchor = caret;
        self.caret = caret;
        self.marked = None;
    }

    pub fn delete_backwards(&mut self)
        requires
            old(self)@.well_formed(),
            old(self)@.forward(),
        ensures
            final(self)@ == old(self)@.backspaced(),
            final(self)@.well_formed(),
    {
        proof {
            reveal_strlit("");
            assert(""@ =~= Seq::<char>::empty());
        }
        if self.anchor != self.caret {
            self.replace(self.anchor, self.caret, "");
        } else if self.caret > 0 {
            self.replace(self.caret - 1, self.caret, "");
        }
    }

    pub fn delete_forwards(&mut self)
        requires
            old(self)@.well_formed(),
            old(self)@.forward(),
        ensures
            final(self)@ == old(self)@.deleted(),
            final(self)@.well_formed(),
    {
        proof {
            reveal_strlit("");
            assert(""@ =~= Seq::<char>::empty());
        }
        if self.anchor != self.caret {
            self.replace(self.anchor, self.caret, "");
        } else if self.caret < self.content.len() {
            let next: usize = self.caret + 1;
            self.replace(self.caret, next, "");
        }
    }

    /// Moves the caret, or extends the selection.
    pub fn move_caret(&mut self, to: usize, extend: bool)
        requires
            old(self)@.well_formed(),
            to <= old(self)@.content.len(),
        ensures
            final(self)@ == old(self)@.moved(to as int, extend),
            final(self)@.well_formed(),
    {
        if !extend {
            self.anchor = to;
        }
        self.caret = to;
    }

    /// The position before the caret.
    pub fn previous_boundary(&self) -> (at: usize)
        ensures
            at == self@.before_caret(),
    {
        if self.caret > 0 {
            self.caret - 1
        } else {
            0
        }
    }

    /// The position after the caret.
    pub fn next_boundary(&self) -> (at: usize)
        ensures
            at == self@.after_caret(),
    {
        if self.caret < self.content.len() {
            self.caret + 1
        } else {
            self.caret
        }
    }

    /// A key with the control key held. `clipboard` is what would be pasted.
    pub fn on_control_key(&mut self, key: &str, clipboard: Option<&str>) -> (result: KeyResult)
        requires
            old(self)@.well_formed(),
            old(self)@.forward() || (key@ == "v"@ ==> clipboard is None) && (key@ == "c"@ ==> old(
                self)@.masked),
        ensures
            (final(self)@, result@) == on_control(
                old(self)@,
                key@,
                match clipboard {
                    Some(text) => Some(text@),
                    None => None,
                },
            ),
            final(self)@.well_formed(),
    {
        proof {
            reveal_strlit("v");
            reveal_strlit("a");
            reveal_strlit("c");
        }
        if same_text(key, "v") {
            if let Some(text) = clipboard {
                self.replace(self.anchor, self.caret, text);
            }
            return KeyResult::Changed;
        }
        if same_text(key, "a") {
            self.anchor = 0;
            self.caret = self.content.len();
            return KeyResult::Changed;
        }
        if same_text(key, "c") && self.anchor != self.caret && !self.masked {
            let selected = slice_of(&self.content, self.anchor, self.caret);
            return KeyResult::Copy(string_of(&selected));
        }
        KeyResult::Ignored
    }

    /// Any other key.
    pub fn on_key_down(&mut self, key: &str, shift: bool) -> (result: KeyResult)
        requires
            old(self)@.well_formed(),
            old(self)@.forward() || !(key@ == "backspace"@ || key@ == "delete"@),
        ensures
            (final(self)@, result@) == on_plain(old(self)@, key@, shift),
            final(self)@.well_formed(),
    {
        if same_text(key, "backspace") {
            self.delete_backwards();
            return KeyResult::Changed;
        }
        if same_text(key, "delete") {
            self.delete_forwards();
            return KeyResult::Changed;
        }
        if same_text(key, "left") {
            let to = self.previous_boundary();
            self.move_caret(to, shift);
            return KeyResult::Changed;
        }
        if same_text(key, "right") {
            let to = self.next_boundary();
            self.move_caret(to, shift);
            return KeyResult::Changed;
        }
        if same_text(key, "home") {
            self.move_caret(0, shift);
            return KeyResult::Changed;
        }
        if same_text(key, "end") {
            let to: usize = self.content.len();
            self.move_caret(to, shift);
            return KeyResult::Changed;
        }
        if same_text(key, "enter") {
            return KeyResult::Submit;
        }
        KeyResult::Ignored
    }

    /// Part of the text as it is shown.
    pub fn rendered(&self, from: usize, to: usize) -> (text: String)
        requires
            from <= to <= self@.content.len(),
        ensures
            text@ == self@.shown(from as int, to as int),
    {
        if self.masked {
            let mut out: Vec<char> = Vec::new();
            let mut i: usize = from;
            while i < to
                invariant
                    from <= i <= to,
                    out@ == Seq::new((i - from) as nat, |k: int| '•'),
                decreases to - i,
            {
                out.push('•');
                i += 1;
                assert(out@ =~= Seq::new((i - from) as nat, |k: int| '•'));
            }
            string_of(&out)
        } else {
            string_of(&slice_of(&self.content, from, to))
        }
    }

    /// The text in a range of UTF-16 units, and the range it really covers.
    pub fn text_for_range(&self, from: usize, to: usize) -> (found: (String, (usize, usize)))
        requires
            unit_len(self@.content) <= usize::MAX,
        ensures
            ({
                let (a, b) = self@.chars_in(from as int, to as int);
                &&& found.0@ == self@.content.subrange(a, b)
                &&& found.1.0 == unit_at(self@.content, a)
                &&& found.1.1 == unit_at(self@.content, b)
            }),
    {
        let (a, b) = self.range_of_units(from, to);
        (string_of(&slice_of(&self.content, a, b)), (self.unit_of(a), self.unit_of(b)))
    }

    /// The selection, in UTF-16 units.
    pub fn selected_text_range(&self) -> (range: (usize, usize))
        requires
            self@.well_formed(),
            unit_len(self@.content) <= usize::MAX,
        ensures
            range.0 == unit_at(self@.content, self@.anchor),
            range.1 == unit_at(self@.content, self@.caret),
    {
        (self.unit_of(self.anchor), self.unit_of(self.caret))
    }

    /// The composition, in UTF-16 units.
    pub fn marked_text_range(&self) -> (range: Option<(usize, usize)>)
        requires
            self@.well_formed(),
            unit_len(self@.content) <= usize::MAX,
        ensures
            match range {
                Some((a, b)) => self@.marked matches Some((from, to)) && a == unit_at(
                    self@.content,
                    from,
                ) && b == unit_at(self@.content, to),
                None => self@.marked is None,
            },
    {
        match self.marked {
            Some((from, to)) => Some((self.unit_of(from), self.unit_of(to))),
            None => None,
        }
    }

    /// The composition is left as it stands.
    pub fn unmark_text(&mut self)
        ensures
            final(self)@ == (FieldView { marked: None, ..old(self)@ }),
    {
        self.marked = None;
    }

    pub fn text_length_utf16(&self) -> (units: usize)
        requires
            unit_len(self@.content) <= usize::MAX,
        ensures
            units == unit_len(self@.content),
    {
        let n: usize = self.content.len();
        assert(self.content@.take(n as int) =~= self.content@);
        self.unit_of(n)
    }

    fn aim(&self, range: Option<(usize, usize)>) -> (target: (usize, usize))
        requires
            self@.well_formed(),
            range is None && self@.marked is None ==> self@.forward(),
        ensures
            (target.0 as int, target.1 as int) == self@.target(range),
            target.0 <= target.1 <= self@.content.len(),
    {
        match range {
            Some((from, to)) => self.range_of_units(from, to),
            None => match self.marked {
                Some(marked) => marked,
                None => (self.anchor, self.caret),
            },
        }
    }

    /// Text arrives. Without a range it replaces the composition, else the
    /// selection: that is how a composition is committed as one edit.
    pub fn replace_text_in_range(&mut self, range: Option<(usize, usize)>, text: &str)
        requires
            old(self)@.well_formed(),
            range is None && old(self)@.marked is None ==> old(self)@.forward(),
        ensures
            ({
                let (from, to) = old(self)@.target(range);
                final(self)@ == old(self)@.replaced(from, to, text@)
            }),
            final(self)@.well_formed(),
    {
        let (from, to) = self.aim(range);
        self.replace(from, to, text);
    }

    /// Provisional text arrives. The caret goes where the input method says it
    /// is in the composition, as a UTF-16 offset, or to its end.
    pub fn replace_and_mark_text_in_range(
        &mut self,
        range: Option<(usize, usize)>,
        text: &str,
        selected: Option<usize>,
    )
        requires
            old(self)@.well_formed(),
            range is None && old(self)@.marked is None ==> old(self)@.forward(),
        ensures
            ({
                let (from, to) = old(self)@.target(range);
                final(self)@ == old(self)@.composed(from, to, text@, selected)
            }),
            final(self)@.well_formed(),
    {
        let (from, to) = self.aim(range);
        let words = one_line(text);
        let count: usize = words.len();
        proof {
            lemma_splice(self.content@, from as int, to as int, words@);
        }
        self.splice(from, to, &words);
        let length: usize = self.content.len();
        assert(from + count <= length);
        let end: usize = from + count;
        let caret: usize = match selected {
            Some(within) => from + char_of_unit(&words, within),
            None => end,
        };
        self.anchor = caret;
        self.caret = caret;
        self.marked = if count == 0 {
            None
        } else {
            Some((from, end))
        };
    }

    fn is_cut(&self, i: usize) -> (yes: bool)
        ensures
            yes == self@.cut(i as int),
    {
        let at_mark = match self.marked {
            Some((a, b)) => i == a || i == b,
            None => false,
        };
        i == 0 || i == self.content.len() || i == self.anchor || i == self.caret || at_mark
    }

    /// What to draw.
    pub fn face(&self, focused: bool) -> (face: FieldFace)
        requires
            self@.well_formed(),
        ensures
            match face {
                FieldFace::Placeholder => self@.content.len() == 0,
                FieldFace::Text { runs, caret_at_end } => {
                    &&& self@.content.len() > 0
                    &&& run_views(runs@) == self@.runs(self@.content.len() as int, focused)
                    &&& caret_at_end == (focused && !self@.has_selection() && self@.caret
                        == self@.content.len())
                },
            },
    {
        let n: usize = self.content.len();
        if n == 0 {
            return FieldFace::Placeholder;
        }
        let has_selection = self.anchor != self.caret;
        let mut runs: Vec<Run> = Vec::new();
        let mut from: usize = 0;
        let mut i: usize = 0;
        assert(run_views(runs@) =~= Seq::<RunView>::empty());
        assert(self@.runs(0, focused) =~= Seq::<RunView>::empty());
        while i < n
            invariant
                n == self@.content.len(),
                self@.well_formed(),
                has_selection == self@.has_selection(),
                from <= i <= n,
                i > 0 ==> from == (if self@.cut(i as int) {
                    i as int
                } else {
                    self@.cut_before(i as int)
                }),
                i == 0 ==> from == 0,
                run_views(runs@) == self@.runs(from as int, focused),
            decreases n - i,
        {
            i += 1;
            assert(from == self@.cut_before(i as int));
            if self.is_cut(i) {
                let composing = match self.marked {
                    Some((a, b)) => from >= a && i <= b,
                    None => false,
                };
                let ghost before = runs@;
                let run = Run {
                    text: self.rendered(from, i),
                    caret_before: focused && !has_selection && from == self.caret,
                    selected: has_selection && from >= self.anchor && i <= self.caret,
                    composing,
                };
                let ghost shown = run@;
                runs.push(run);
                proof {
                    assert(shown == self@.run(from as int, i as int, focused));
                    assert(run_views(runs@) =~= run_views(before).push(shown));
                }
                from = i;
            }
        }
        assert(self@.cut(n as int));
        FieldFace::Text { runs, caret_at_end: focused && !has_selection && self.caret == n }
    }
}

/// UTF-16 offsets round trip: the offset of a character leads back to it.
pub proof fn utf16_offsets_round_trip(s: Seq<char>, i: int)
    requires
        0 <= i <= s.len(),
    ensures
        char_at_unit(s, unit_at(s, i) as int) == i,
{
    lemma_char_from_skips(s, i, 0);
}

proof fn lemma_char_from_skips(s: Seq<char>, i: int, k: int)
    requires
        0 <= k <= i <= s.len(),
    ensures
        char_from(s, unit_at(s, i) as int, k) == i,
    decreases i - k,
{
    if k < i {
        lemma_units_grow(s, k, i);
        lemma_char_from_skips(s, i, k + 1);
    }
}

/// The input method's caret lands before the character of the composition that
/// its UTF-16 offset names, however wide the characters before it are.
pub proof fn the_composition_caret_is_where_the_input_method_says(
    field: FieldView,
    from: int,
    to: int,
    text: Seq<char>,
    selected: usize,
    i: int,
)
    requires
        0 <= from <= to <= field.content.len(),
        0 <= i <= text.len(),
        selected == unit_at(on_one_line(text), i),
    ensures
        field.composed(from, to, text, Some(selected)).caret == from + i,
{
    utf16_offsets_round_trip(on_one_line(text), i);
}

/// A composition is committed as one edit: what was provisional leaves no trace,
/// and the field is as if only the final text had been typed.
pub proof fn a_composition_commits_as_one_edit(
    field: FieldView,
    from: int,
    to: int,
    provisional: Seq<char>,
    selected: Option<usize>,
    committed: Seq<char>,
)
    requires
        field.well_formed(),
        0 <= from <= to <= field.content.len(),
        provisional.len() > 0,
    ensures
        ({
            let composing = field.composed(from, to, provisional, selected);
            let (a, b) = composing.target(None);
            composing.replaced(a, b, committed) == field.replaced(from, to, committed)
        }),
{
    let composing = field.composed(from, to, provisional, selected);
    lemma_splice(field.content, from, to, on_one_line(provisional));
    let (a, b) = composing.target(None);
    assert(a == from && b == from + provisional.len());
    assert(composing.content.take(a) =~= field.content.take(from));
    assert(composing.content.skip(b) =~= field.content.skip(to));
}

/// Whatever is pasted, a text on one line stays on one line, and no character of
/// what was pasted is lost.
pub proof fn pasting_keeps_one_line(field: FieldView, from: int, to: int, text: Seq<char>)
    requires
        0 <= from <= to <= field.content.len(),
        forall|i: int|
            0 <= i < field.content.len() ==> #[trigger] field.content[i] != '\n'
                && field.content[i] != '\r',
    ensures
        ({
            let after = field.replaced(from, to, text).content;
            &&& after.len() == field.content.len() - (to - from) + text.len()
            &&& forall|i: int|
                0 <= i < after.len() ==> #[trigger] after[i] != '\n' && after[i] != '\r'
            &&& forall|i: int|
                0 <= i < text.len() && text[i] != '\n' && text[i] != '\r' ==> after[from + i]
                    == #[trigger] text[i]
        }),
{
    let after = field.replaced(from, to, text).content;
    let clean = on_one_line(text);
    lemma_splice(field.content, from, to, clean);
    assert forall|i: int| 0 <= i < after.len() implies #[trigger] after[i] != '\n' && after[i]
        != '\r' by {
        if i < from {
            assert(after[i] == field.content[i]);
        } else if i < from + clean.len() {
            assert(after[i] == clean[i - from]);
        } else {
            assert(after[i] == field.content[to + (i - from - clean.len())]);
        }
    }
    assert forall|i: int| 0 <= i < text.len() && text[i] != '\n' && text[i] != '\r' implies after[
    from + i] == #[trigger] text[i] by {
        assert(after[from + i] == clean[i]);
    }
}

/// A masked field gives nothing away: it shows a bullet for every character and
/// hands nothing to the clipboard, whatever key is pressed.
pub proof fn a_masked_field_gives_nothing_away(
    field: FieldView,
    key: Seq<char>,
    clipboard: Option<Seq<char>>,
    shift: bool,
    from: int,
    to: int,
)
    requires
        field.masked,
        0 <= from <= to <= field.content.len(),
    ensures
        field.shown(from, to).len() == to - from,
        forall|i: int| 0 <= i < to - from ==> #[trigger] field.shown(from, to)[i] == '•',
        on_control(field, key, clipboard).1 !is Copy,
        on_plain(field, key, shift).1 !is Copy,
        on_control(field, key, clipboard).0.masked,
        on_plain(field, key, shift).0.masked,
{
}

/// Deleting past either end does nothing.
pub proof fn deleting_past_an_end_does_nothing(field: FieldView)
    requires
        field.well_formed(),
        !field.has_selection(),
    ensures
        field.caret == 0 ==> field.backspaced() == field,
        field.caret == field.content.len() ==> field.deleted() == field,
{
}

/// The pieces, one after the other.
pub open spec fn spelled(runs: Seq<RunView>) -> Seq<char>
    decreases runs.len(),
{
    if runs.len() == 0 {
        Seq::empty()
    } else {
        spelled(runs.drop_last()) + runs.last().text
    }
}

/// The pieces that are drawn are the text: nothing is left out and nothing is
/// drawn twice.
pub proof fn what_is_drawn_is_the_text(field: FieldView, focused: bool)
    requires
        field.well_formed(),
        !field.masked,
    ensures
        spelled(field.runs(field.content.len() as int, focused)) == field.content,
{
    lemma_spelled(field, field.content.len() as int, focused);
    assert(field.content.take(field.content.len() as int) =~= field.content);
}

proof fn lemma_cut_before(field: FieldView, i: int)
    requires
        i > 0,
    ensures
        0 <= field.cut_before(i) < i,
    decreases i,
{
    if i > 1 && !field.cut(i - 1) {
        lemma_cut_before(field, i - 1);
    }
}

proof fn lemma_spelled(field: FieldView, upto: int, focused: bool)
    requires
        !field.masked,
        0 <= upto <= field.content.len(),
    ensures
        spelled(field.runs(upto, focused)) == field.content.take(upto),
    decreases upto,
{
    if upto == 0 {
        assert(field.content.take(0) =~= Seq::<char>::empty());
    } else {
        lemma_cut_before(field, upto);
        let from = field.cut_before(upto);
        lemma_spelled(field, from, focused);
        let runs = field.runs(upto, focused);
        assert(runs.drop_last() =~= field.runs(from, focused));
        assert(field.content.take(from) + field.content.subrange(from, upto)
            =~= field.content.take(upto));
    }
}

/// An edit changes its range and nothing else: what stands before and after it
/// stays, what is typed stands in between, and the caret is behind it with nothing
/// selected or composed.
pub proof fn an_edit_changes_only_its_range(
    field: FieldView,
    from: int,
    to: int,
    text: Seq<char>,
)
    requires
        0 <= from <= to <= field.content.len(),
    ensures
        ({
            let after = field.replaced(from, to, text);
            let tail = field.content.len() - to;
            &&& after.content.len() == from + text.len() + tail
            &&& forall|i: int| 0 <= i < from ==> #[trigger] after.content[i] == field.content[i]
            &&& forall|i: int|
                from + text.len() <= i < after.content.len() ==> #[trigger] after.content[i]
                    == field.content[i - text.len() - from + to]
            &&& forall|i: int|
                0 <= i < text.len() && text[i] != '\n' && text[i] != '\r' ==> after.content[from
                    + i] == #[trigger] text[i]
            &&& forall|i: int|
                0 <= i < text.len() && (text[i] == '\n' || text[i] == '\r') ==> (
                #[trigger] text[i] == text[i] && after.content[from + i] == ' ')
            &&& after.caret == from + text.len()
            &&& after.anchor == after.caret
            &&& after.marked is None
            &&& after.masked == field.masked
        }),
{
    let after = field.replaced(from, to, text);
    let clean = on_one_line(text);
    assert forall|i: int| 0 <= i < text.len() implies after.content[from + i]
        == #[trigger] clean[i] by {}
    assert forall|i: int| 0 <= i < text.len() && text[i] != '\n' && text[i] != '\r' implies
        after.content[from + i] == #[trigger] text[i] by {
        assert(clean[i] == text[i]);
    }
    assert forall|i: int| 0 <= i < text.len() && (text[i] == '\n' || text[i] == '\r') implies (
    #[trigger] text[i] == text[i] && after.content[from + i] == ' ') by {
        assert(clean[i] == ' ');
    }
}

/// A composition stands where its edit was made and is marked as one, from its
/// start to its end; an empty one marks nothing. Without a word from the input
/// method the caret is behind it.
pub proof fn a_composition_is_marked(
    field: FieldView,
    from: int,
    to: int,
    text: Seq<char>,
    selected: Option<usize>,
)
    requires
        0 <= from <= to <= field.content.len(),
    ensures
        ({
            let after = field.composed(from, to, text, selected);
            &&& after.content == field.replaced(from, to, text).content
            &&& text.len() > 0 ==> after.marked == Some((from, from + text.len()))
            &&& text.len() == 0 ==> after.marked is None
            &&& selected is None ==> after.caret == from + text.len()
            &&& after.anchor == after.caret
            &&& after.masked == field.masked
        }),
{
}

/// An edit is for the range it names, counted in UTF-16 units; without one for the
/// composition, and without that for the selection.
pub proof fn an_edit_finds_its_range(field: FieldView, from: usize, to: usize, a: int, b: int)
    requires
        0 <= a <= b <= field.content.len(),
        from == unit_at(field.content, a),
        to == unit_at(field.content, b),
    ensures
        field.target(Some((from, to))) == (a, b),
        field.target(Some((to, from))) == (a, b),
        field.marked is Some ==> field.target(None) == field.marked->0,
        field.marked is None ==> field.target(None) == (field.anchor, field.caret),
{
    utf16_offsets_round_trip(field.content, a);
    utf16_offsets_round_trip(field.content, b);
}

/// A character outside the basic plane is two UTF-16 units, any other one.
pub proof fn units_are_counted_one_by_one(s: Seq<char>, c: char)
    ensures
        unit_len(s.push(c)) == unit_len(s) + (if (c as int) < 0x10000 {
            1nat
        } else {
            2nat
        }),
        unit_len(Seq::empty()) == 0,
{
    assert(s.push(c).drop_last() =~= s);
}

/// Backspace takes the selection, or the character before the caret; Delete takes
/// the selection, or the character after it.
pub proof fn deleting_takes_one_character(field: FieldView)
    requires
        field.well_formed(),
        field.forward(),
    ensures
        field.anchor < field.caret ==> field.backspaced() == field.deleted()
            && field.backspaced().content == field.content.take(field.anchor) + field.content.skip(
            field.caret,
        ) && field.backspaced().caret == field.anchor,
        field.anchor == field.caret && field.caret > 0 ==> field.backspaced().content
            == field.content.remove(field.caret - 1) && field.backspaced().caret == field.caret - 1,
        field.anchor == field.caret && field.caret < field.content.len()
            ==> field.deleted().content == field.content.remove(field.caret)
            && field.deleted().caret == field.caret,
{
    let none = Seq::<char>::empty();
    assert(on_one_line(none) =~= none);
    if field.anchor < field.caret {
        assert(field.backspaced().content =~= field.content.take(field.anchor)
            + field.content.skip(field.caret));
    } else {
        if field.caret > 0 {
            assert(field.backspaced().content =~= field.content.remove(field.caret - 1));
        }
        if field.caret < field.content.len() {
            assert(field.deleted().content =~= field.content.remove(field.caret));
        }
    }
}

/// Keys move the caret by one character, or to an end, and never out of the text;
/// with Shift the other end of the selection stays.
pub proof fn keys_move_the_caret(field: FieldView, shift: bool)
    requires
        field.well_formed(),
    ensures
        ({
            let left = on_plain(field, "left"@, shift).0;
            let right = on_plain(field, "right"@, shift).0;
            let home = on_plain(field, "home"@, shift).0;
            let end = on_plain(field, "end"@, shift).0;
            &&& left.caret == (if field.caret > 0 {
                field.caret - 1
            } else {
                0
            })
            &&& right.caret == (if field.caret < field.content.len() {
                field.caret + 1
            } else {
                field.caret
            })
            &&& home.caret == 0
            &&& end.caret == field.content.len()
            &&& forall|moved: FieldView|
                moved == left || moved == right || moved == home || moved == end ==> (
                #[trigger] moved.content) == field.content && moved.anchor == (if shift {
                    field.anchor
                } else {
                    moved.caret
                })
        }),
        on_plain(field, "enter"@, shift) == (field, KeyResultView::Submit),
        on_plain(field, "backspace"@, shift).0 == field.backspaced(),
        on_plain(field, "delete"@, shift).0 == field.deleted(),
{
    reveal_strlit("backspace");
    reveal_strlit("delete");
    reveal_strlit("left");
    reveal_strlit("right");
    reveal_strlit("home");
    reveal_strlit("end");
    reveal_strlit("enter");
    assert("left"@[0] == 'l' && "home"@[0] == 'h' && "right"@[0] == 'r' && "enter"@[0] == 'e');
    assert("backspace"@.len() == 9 && "delete"@.len() == 6 && "end"@.len() == 3);
}

/// Paste puts the clipboard in the selection's place, select-all selects all, and
/// copy hands out what is selected; any other key with Control is not for the
/// field.
pub proof fn control_keys_edit(field: FieldView, text: Seq<char>, key: Seq<char>)
    requires
        field.well_formed(),
        field.forward(),
    ensures
        on_control(field, "v"@, Some(text)).0 == field.replaced(field.anchor, field.caret, text),
        on_control(field, "v"@, None).0 == field,
        ({
            let all = on_control(field, "a"@, None).0;
            all.anchor == 0 && all.caret == field.content.len() && all.content == field.content
        }),
        field.anchor < field.caret && !field.masked ==> on_control(field, "c"@, None) == (
            field,
            KeyResultView::Copy(field.content.subrange(field.anchor, field.caret)),
        ),
        field.anchor == field.caret || field.masked ==> on_control(field, "c"@, None) == (
            field,
            KeyResultView::Ignored,
        ),
        key != "v"@ && key != "a"@ && key != "c"@ ==> on_control(field, key, Some(text)) == (
            field,
            KeyResultView::Ignored,
        ),
{
    reveal_strlit("v");
    reveal_strlit("a");
    reveal_strlit("c");
    assert("v"@[0] == 'v' && "a"@[0] == 'a' && "c"@[0] == 'c');
}

/// A piece is drawn as selected, or as composing, exactly if all of it is; and the
/// caret stands before the piece that begins at it, where the field has the focus
/// and nothing is selected.
pub proof fn a_piece_is_drawn_as_what_it_is(field: FieldView, from: int, to: int, focused: bool)
    ensures
        ({
            let piece = field.run(from, to, focused);
            &&& piece.selected <==> field.anchor != field.caret && field.anchor <= from && to
                <= field.caret
            &&& piece.composing <==> (field.marked matches Some((a, b)) && a <= from && to <= b)
            &&& piece.caret_before <==> focused && field.anchor == field.caret && field.caret
                == from
        }),
{
}

/// An offset in the middle of a character that is two units wide stands for the
/// next one.
pub proof fn half_a_character_is_the_next_one(s: Seq<char>, i: int)
    requires
        0 <= i < s.len(),
        (s[i] as int) >= 0x10000,
    ensures
        char_at_unit(s, (unit_at(s, i) + 1) as int) == i + 1,
{
    lemma_unit_step(s, i);
    lemma_char_from_middle(s, i, 0);
}

proof fn lemma_char_from_middle(s: Seq<char>, i: int, k: int)
    requires
        0 <= k <= i < s.len(),
        unit_at(s, i + 1) == unit_at(s, i) + 2,
    ensures
        char_from(s, (unit_at(s, i) + 1) as int, k) == i + 1,
    decreases i - k,
{
    if k < i {
        lemma_units_grow(s, k, i);
        lemma_char_from_middle(s, i, k + 1);
    } else {
        assert(char_from(s, (unit_at(s, i) + 1) as int, i + 1) == i + 1);
    }
}

} // verus!
