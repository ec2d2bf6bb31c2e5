//! Text as sequences of characters.

use vstd::prelude::*;

verus! {

/// What `String::push` does: the character goes on the end.
pub assume_specification[ String::push ](s: &mut String, c: char)
    ensures
        final(s)@ == old(s)@.push(c),
;

/// The views of a list of strings.
pub open spec fn texts(list: Seq<String>) -> Seq<Seq<char>> {
    list.map_values(|s: String| s@)
}

/// The view of a string that may be absent.
pub open spec fn opt_text(s: Option<String>) -> Option<Seq<char>> {
    match s {
        Some(s) => Some(s@),
        None => None,
    }
}

pub fn copied(list: &Vec<String>) -> (copy: Vec<String>)
    ensures
        texts(copy@) == texts(list@),
{
    let mut copy: Vec<String> = Vec::new();
    let mut i: usize = 0;
    while i < list.len()
        invariant
            i <= list@.len(),
            copy@.len() == i,
            forall|k: int| 0 <= k < i ==> (#[trigger] copy@[k])@ == list@[k]@,
        decreases list@.len() - i,
    {
        copy.push(list[i].clone());
        i += 1;
    }
    assert(texts(copy@) =~= texts(list@));
    copy
}

pub fn chars_of(s: &str) -> (chars: Vec<char>)
    ensures
        chars@ == s@,
{
    let mut chars: Vec<char> = Vec::new();
    for c in it: s.chars()
        invariant
            it.seq() == s@,
            chars@ == s@.take(it.index() as int),
    {
        chars.push(c);
        assert(s@.take(it.index() + 1) == s@.take(it.index() as int).push(s@[it.index() as int]));
    }
    assert(s@.take(s@.len() as int) == s@);
    chars
}

pub fn string_of(chars: &[char]) -> (s: String)
    ensures
        s@ == chars@,
{
    let mut s = String::new();
    let mut i: usize = 0;
    while i < chars.len()
        invariant
            i <= chars@.len(),
            s@ == chars@.take(i as int),
        decreases chars@.len() - i,
    {
        s.push(chars[i]);
        assert(chars@.take(i + 1) == chars@.take(i as int).push(chars@[i as int]));
        i += 1;
    }
    assert(chars@.take(chars@.len() as int) == chars@);
    s
}

/// Part of a run of characters.
pub fn slice_of(chars: &[char], from: usize, to: usize) -> (part: Vec<char>)
    requires
        from <= to <= chars@.len(),
    ensures
        part@ == chars@.subrange(from as int, to as int),
{
    let mut part: Vec<char> = Vec::new();
    let mut i: usize = from;
    while i < to
        invariant
            from <= i <= to <= chars@.len(),
            part@ == chars@.subrange(from as int, i as int),
        decreases to - i,
    {
        part.push(chars[i]);
        assert(chars@.subrange(from as int, i + 1) == chars@.subrange(from as int, i as int).push(
            chars@[i as int],
        ));
        i += 1;
    }
    part
}

pub fn same_chars(a: &[char], b: &[char]) -> (same: bool)
    ensures
        same == (a@ == b@),
{
    if a.len() != b.len() {
        return false;
    }
    let mut i: usize = 0;
    while i < a.len()
        invariant
            a@.len() == b@.len(),
            i <= a@.len(),
            a@.take(i as int) == b@.take(i as int),
        decreases a@.len() - i,
    {
        if a[i] != b[i] {
            assert(a@[i as int] != b@[i as int]);
            return false;
        }
        assert(a@.take(i + 1) == a@.take(i as int).push(a@[i as int]));
        assert(b@.take(i + 1) == b@.take(i as int).push(b@[i as int]));
        i += 1;
    }
    assert(a@.take(a@.len() as int) == a@);
    assert(b@.take(b@.len() as int) == b@);
    true
}

/// Whether a text is in a list.
pub fn holds_text(list: &Vec<String>, text: &str) -> (yes: bool)
    ensures
        yes == texts(list@).contains(text@),
{
    let mut i: usize = 0;
    while i < list.len()
        invariant
            i <= list@.len(),
            forall|k: int| 0 <= k < i ==> #[trigger] texts(list@)[k] != text@,
        decreases list@.len() - i,
    {
        if same_text(list[i].as_str(), text) {
            assert(texts(list@)[i as int] == text@);
            return true;
        }
        assert(texts(list@)[i as int] != text@);
        i += 1;
    }
    false
}

pub fn same_text(a: &str, b: &str) -> (same: bool)
    ensures
        same == (a@ == b@),
{
    let a = chars_of(a);
    let b = chars_of(b);
    same_chars(&a, &b)
}

/// The Unicode `White_Space` property.
pub open spec fn white_space(c: char) -> bool {
    let n = c as u32;
    ||| 0x09 <= n <= 0x0D
    ||| n == 0x20
    ||| n == 0x85
    ||| n == 0xA0
    ||| n == 0x1680
    ||| 0x2000 <= n <= 0x200A
    ||| n == 0x2028
    ||| n == 0x2029
    ||| n == 0x202F
    ||| n == 0x205F
    ||| n == 0x3000
}

pub fn is_white_space(c: char) -> (yes: bool)
    ensures
        yes == white_space(c),
{
    let n: u32 = c as u32;
    (0x09 <= n && n <= 0x0D) || n == 0x20 || n == 0x85 || n == 0xA0 || n == 0x1680 || (0x2000 <= n
        && n <= 0x200A) || n == 0x2028 || n == 0x2029 || n == 0x202F || n == 0x205F || n == 0x3000
}

/// The text without leading white space.
pub open spec fn trim_start(s: Seq<char>) -> Seq<char>
    decreases s.len(),
{
    if s.len() > 0 && white_space(s[0]) {
        trim_start(s.skip(1))
    } else {
        s
    }
}

/// The text without trailing white space.
pub open spec fn trim_end(s: Seq<char>) -> Seq<char>
    decreases s.len(),
{
    if s.len() > 0 && white_space(s.last()) {
        trim_end(s.drop_last())
    } else {
        s
    }
}

/// The text without white space around it.
pub open spec fn trim(s: Seq<char>) -> Seq<char> {
    trim_end(trim_start(s))
}

pub fn trimmed(chars: &[char]) -> (t: Vec<char>)
    ensures
        t@ == trim(chars@),
{
    let mut from: usize = 0;
    assert(chars@.skip(0) == chars@);
    while from < chars.len() && is_white_space(chars[from])
        invariant
            from <= chars@.len(),
            trim_start(chars@) == trim_start(chars@.skip(from as int)),
        decreases chars@.len() - from,
    {
        assert(chars@.skip(from as int).skip(1) == chars@.skip(from + 1));
        from += 1;
    }
    let mut to: usize = chars.len();
    assert(chars@.skip(from as int) == chars@.subrange(from as int, to as int));
    assert(trim_start(chars@) == chars@.subrange(from as int, to as int));
    while to > from && is_white_space(chars[to - 1])
        invariant
            from <= to <= chars@.len(),
            trim_end(trim_start(chars@)) == trim_end(chars@.subrange(from as int, to as int)),
        decreases to - from,
    {
        assert(chars@.subrange(from as int, to as int).drop_last() == chars@.subrange(
            from as int,
            to - 1,
        ));
        to -= 1;
    }
    slice_of(chars, from, to)
}

/// Trimming leaves no white space at either end, and trimming again changes
/// nothing.
pub proof fn lemma_trim_is_settled(s: Seq<char>)
    ensures
        trim(trim(s)) == trim(s),
        trim(s).len() <= s.len(),
        trim(s).len() > 0 ==> !white_space(trim(s)[0]) && !white_space(trim(s).last()),
{
    lemma_trim_start(s);
    lemma_trim_end(trim_start(s));
    let t = trim(s);
    if t.len() > 0 {
        assert(t[0] == trim_start(s)[0]);
    }
}

proof fn lemma_trim_start(s: Seq<char>)
    ensures
        trim_start(s).len() <= s.len(),
        trim_start(s).len() > 0 ==> !white_space(trim_start(s)[0]),
    decreases s.len(),
{
    if s.len() > 0 && white_space(s[0]) {
        lemma_trim_start(s.skip(1));
    }
}

proof fn lemma_trim_end(s: Seq<char>)
    ensures
        trim_end(s).len() <= s.len(),
        trim_end(s).is_prefix_of(s),
        trim_end(s).len() > 0 ==> !white_space(trim_end(s).last()),
    decreases s.len(),
{
    if s.len() > 0 && white_space(s.last()) {
        lemma_trim_end(s.drop_last());
    }
}

/// What trimming leaves is one piece of the text.
pub proof fn lemma_trim_is_part(s: Seq<char>) -> (ends: (int, int))
    ensures
        0 <= ends.0 <= ends.1 <= s.len(),
        trim(s) == s.subrange(ends.0, ends.1),
{
    let from = lemma_trim_start_is_part(s);
    let t = trim_start(s);
    lemma_trim_end(t);
    let to = from + trim(s).len();
    assert(trim(s) =~= s.subrange(from, to));
    (from, to)
}

proof fn lemma_trim_start_is_part(s: Seq<char>) -> (from: int)
    ensures
        0 <= from <= s.len(),
        trim_start(s) == s.skip(from),
    decreases s.len(),
{
    if s.len() > 0 && white_space(s[0]) {
        let from = lemma_trim_start_is_part(s.skip(1));
        assert(s.skip(1).skip(from) =~= s.skip(from + 1));
        from + 1
    } else {
        assert(s.skip(0) =~= s);
        0
    }
}

pub fn has_prefix(s: &[char], prefix: &[char]) -> (yes: bool)
    ensures
        yes == prefix@.is_prefix_of(s@),
{
    if prefix.len() > s.len() {
        return false;
    }
    let head = slice_of(s, 0, prefix.len());
    same_chars(&head, prefix)
}

pub fn has_suffix(s: &[char], suffix: &[char]) -> (yes: bool)
    ensures
        yes == suffix@.is_suffix_of(s@),
{
    if suffix.len() > s.len() {
        return false;
    }
    let tail = slice_of(s, s.len() - suffix.len(), s.len());
    same_chars(&tail, suffix)
}

/// Whether `part` stands in `s` at position `i`.
pub open spec fn stands_at(s: Seq<char>, part: Seq<char>, i: int) -> bool {
    0 <= i && i + part.len() <= s.len() && s.subrange(i, i + part.len()) == part
}

/// Whether `part` occurs somewhere in `s`.
pub open spec fn occurs_in(part: Seq<char>, s: Seq<char>) -> bool {
    exists|i: int| stands_at(s, part, i)
}

pub fn has_part(s: &[char], part: &[char]) -> (yes: bool)
    ensures
        yes == occurs_in(part@, s@),
{
    if part.len() > s.len() {
        return false;
    }
    let n: usize = s.len();
    let last: usize = n - part.len();
    let mut i: usize = 0;
    while i <= last
        invariant
            n == s@.len(),
            last == n - part@.len(),
            i <= last + 1,
            forall|k: int| 0 <= k < i ==> !stands_at(s@, part@, k),
        decreases last + 1 - i,
    {
        let here = slice_of(s, i, i + part.len());
        if same_chars(&here, part) {
            assert(stands_at(s@, part@, i as int));
            return true;
        }
        if i == last {
            assert forall|k: int| !stands_at(s@, part@, k) by {}
            return false;
        }
        i += 1;
    }
    false
}

pub open spec fn ascii_lower(c: char) -> char {
    if 'A' <= c && c <= 'Z' {
        (c as u32 + 32) as char
    } else {
        c
    }
}

/// ASCII letters in lower case, everything else as it is.
pub open spec fn ascii_lowered(s: Seq<char>) -> Seq<char> {
    s.map_values(|c: char| ascii_lower(c))
}

pub fn lower_ascii(c: char) -> (lower: char)
    ensures
        lower == ascii_lower(c),
{
    if 'A' <= c && c <= 'Z' {
        (c as u8 + 32) as char
    } else {
        c
    }
}

pub fn lowered_ascii(s: &[char]) -> (lower: Vec<char>)
    ensures
        lower@ == ascii_lowered(s@),
{
    let mut lower: Vec<char> = Vec::new();
    let mut i: usize = 0;
    while i < s.len()
        invariant
            i <= s@.len(),
            lower@ == ascii_lowered(s@.take(i as int)),
        decreases s@.len() - i,
    {
        lower.push(lower_ascii(s[i]));
        assert(s@.take(i + 1) == s@.take(i as int).push(s@[i as int]));
        assert(ascii_lowered(s@.take(i + 1)) == ascii_lowered(s@.take(i as int)).push(
            ascii_lower(s@[i as int]),
        ));
        i += 1;
    }
    assert(s@.take(s@.len() as int) == s@);
    lower
}

/// A digit as it is written.
pub open spec fn digit_char(d: int) -> char {
    (d + 48) as char
}

/// A number in decimal.
pub open spec fn decimal(n: nat) -> Seq<char>
    decreases n,
{
    if n < 10 {
        seq![digit_char(n as int)]
    } else {
        decimal(n / 10).push(digit_char((n % 10) as int))
    }
}

pub fn decimal_of(n: u128) -> (s: Vec<char>)
    ensures
        s@ == decimal(n as nat),
    decreases n,
{
    let digit: u8 = (n % 10) as u8;
    let mut s: Vec<char> = if n < 10 {
        Vec::new()
    } else {
        decimal_of(n / 10)
    };
    s.push((digit + 48) as char);
    assert(s@ == decimal(n as nat));
    s
}

/// Appends `more` to `s`.
pub fn push_all(s: &mut Vec<char>, more: &[char])
    ensures
        final(s)@ == old(s)@ + more@,
{
    let mut i: usize = 0;
    while i < more.len()
        invariant
            i <= more@.len(),
            s@ == old(s)@ + more@.take(i as int),
        decreases more@.len() - i,
    {
        s.push(more[i]);
        assert(more@.take(i + 1) == more@.take(i as int).push(more@[i as int]));
        i += 1;
    }
    assert(more@.take(more@.len() as int) == more@);
}

/// The longest runs of characters that are `inside`.
pub open spec fn runs(s: Seq<char>, inside: spec_fn(char) -> bool) -> Seq<Seq<char>>
    decreases s.len(),
{
    if s.len() == 0 {
        Seq::empty()
    } else {
        let rest = runs(s.drop_last(), inside);
        if !inside(s.last()) {
            rest
        } else if s.len() == 1 || !inside(s[s.len() - 2]) {
            rest.push(seq![s.last()])
        } else {
            rest.update(rest.len() - 1, rest.last().push(s.last()))
        }
    }
}

/// The words of a text: its longest runs without white space.
pub open spec fn words(s: Seq<char>) -> Seq<Seq<char>> {
    runs(s, |c: char| !white_space(c))
}

/// The views of a list of words.
pub open spec fn views(list: Seq<Vec<char>>) -> Seq<Seq<char>> {
    list.map_values(|w: Vec<char>| w@)
}

/// The runs of `s`, where `mask` says which characters are inside.
pub(crate) fn runs_of(
    s: &[char],
    mask: &Vec<bool>,
    Ghost(inside): Ghost<spec_fn(char) -> bool>,
) -> (list: Vec<Vec<char>>)
    requires
        mask@.len() == s@.len(),
        forall|i: int| 0 <= i < s@.len() ==> #[trigger] mask@[i] == inside(s@[i]),
    ensures
        views(list@) == runs(s@, inside),
{
    let mut list: Vec<Vec<char>> = Vec::new();
    let mut word: Vec<char> = Vec::new();
    let mut i: usize = 0;
    assert(s@.take(0) == Seq::<char>::empty());
    assert(views(list@) =~= Seq::<Seq<char>>::empty());
    while i < s.len()
        invariant
            i <= s@.len(),
            mask@.len() == s@.len(),
            forall|k: int| 0 <= k < s@.len() ==> #[trigger] mask@[k] == inside(s@[k]),
            word@.len() == 0 <==> (i == 0 || !inside(s@[i - 1])),
            runs(s@.take(i as int), inside) == if word@.len() == 0 {
                views(list@)
            } else {
                views(list@).push(word@)
            },
        decreases s@.len() - i,
    {
        let c = s[i];
        let ghost before = s@.take(i as int);
        let ghost here = s@.take(i + 1);
        proof {
            assert(here.drop_last() == before);
            assert(here.last() == c);
            if i > 0 {
                assert(here[here.len() - 2] == s@[i - 1]);
            }
            assert(mask@[i as int] == inside(c));
        }
        if !mask[i] {
            if word.len() > 0 {
                let ghost listed = list@;
                let ghost done = word@;
                list.push(word);
                assert(views(list@) =~= views(listed).push(done));
                word = Vec::new();
            }
        } else {
            let ghost shorter = word@;
            word.push(c);
            proof {
                if shorter.len() == 0 {
                    assert(word@ =~= seq![c]);
                } else {
                    let rest = views(list@).push(shorter);
                    assert(rest.update(rest.len() - 1, rest.last().push(c)) =~= views(list@).push(
                        word@,
                    ));
                }
            }
        }
        i += 1;
    }
    assert(s@.take(s@.len() as int) == s@);
    if word.len() > 0 {
        let ghost listed = list@;
        let ghost done = word@;
        list.push(word);
        assert(views(list@) =~= views(listed).push(done));
    }
    list
}

pub fn words_of(s: &[char]) -> (list: Vec<Vec<char>>)
    ensures
        views(list@) == words(s@),
{
    let ghost inside = |c: char| !white_space(c);
    let mut mask: Vec<bool> = Vec::new();
    let mut i: usize = 0;
    while i < s.len()
        invariant
            i <= s@.len(),
            inside == (|c: char| !white_space(c)),
            mask@.len() == i,
            forall|k: int| 0 <= k < i ==> #[trigger] mask@[k] == inside(s@[k]),
        decreases s@.len() - i,
    {
        mask.push(!is_white_space(s[i]));
        i += 1;
    }
    runs_of(s, &mask, Ghost(inside))
}

/// The parts of a text with `sep` between each two.
pub open spec fn joined(parts: Seq<Seq<char>>, sep: Seq<char>) -> Seq<char>
    decreases parts.len(),
{
    if parts.len() == 0 {
        Seq::empty()
    } else if parts.len() == 1 {
        parts[0]
    } else {
        joined(parts.drop_last(), sep) + sep + parts.last()
    }
}

pub fn join(parts: &Vec<Vec<char>>, sep: &[char]) -> (s: Vec<char>)
    ensures
        s@ == joined(views(parts@), sep@),
{
    let mut s: Vec<char> = Vec::new();
    let mut i: usize = 0;
    assert(views(parts@).take(0) =~= Seq::<Seq<char>>::empty());
    while i < parts.len()
        invariant
            i <= parts@.len(),
            s@ == joined(views(parts@).take(i as int), sep@),
        decreases parts@.len() - i,
    {
        if i > 0 {
            push_all(&mut s, sep);
        }
        push_all(&mut s, &parts[i]);
        proof {
            let now = views(parts@).take(i + 1);
            assert(now.drop_last() =~= views(parts@).take(i as int));
            assert(now.last() == parts@[i as int]@);
            if i == 0 {
                assert(s@ =~= now[0]);
            }
        }
        i += 1;
    }
    assert(views(parts@).take(parts@.len() as int) =~= views(parts@));
    s
}

/// The text on one line: each line break becomes a space.
pub open spec fn single_line(s: Seq<char>) -> Seq<char> {
    s.map_values(
        |c: char|
            if c == '\n' || c == '\r' {
                ' '
            } else {
                c
            },
    )
}

/// The first `limit` characters, or all.
pub open spec fn clipped(s: Seq<char>, limit: int) -> Seq<char> {
    if s.len() <= limit {
        s
    } else {
        s.take(limit)
    }
}

/// The first `limit` characters on one line.
pub fn clipped_line(s: &[char], limit: usize) -> (line: Vec<char>)
    ensures
        line@ == clipped(single_line(s@), limit as int),
{
    let mut line: Vec<char> = Vec::new();
    let mut i: usize = 0;
    while i < s.len() && i < limit
        invariant
            i <= s@.len(),
            i <= limit,
            line@ == single_line(s@).take(i as int),
        decreases s@.len() - i,
    {
        let c = s[i];
        line.push(
            if c == '\n' || c == '\r' {
                ' '
            } else {
                c
            },
        );
        assert(single_line(s@).take(i + 1) == single_line(s@).take(i as int).push(
            single_line(s@)[i as int],
        ));
        i += 1;
    }
    assert(line@ == clipped(single_line(s@), limit as int));
    line
}

/// The parts of a text between its separators.
pub open spec fn split(s: Seq<char>, sep: char) -> Seq<Seq<char>>
    decreases s.len(),
{
    if s.len() == 0 {
        seq![Seq::empty()]
    } else {
        let rest = split(s.drop_last(), sep);
        if s.last() == sep {
            rest.push(Seq::empty())
        } else {
            rest.update(rest.len() - 1, rest.last().push(s.last()))
        }
    }
}

pub fn split_at_each(s: &[char], sep: char) -> (list: Vec<Vec<char>>)
    ensures
        views(list@) == split(s@, sep),
{
    let mut list: Vec<Vec<char>> = Vec::new();
    let mut part: Vec<char> = Vec::new();
    let mut i: usize = 0;
    assert(s@.take(0) == Seq::<char>::empty());
    assert(views(list@).push(part@) =~= seq![Seq::<char>::empty()]);
    while i < s.len()
        invariant
            i <= s@.len(),
            split(s@.take(i as int), sep) == views(list@).push(part@),
        decreases s@.len() - i,
    {
        let ghost before = s@.take(i as int);
        let ghost here = s@.take(i + 1);
        let ghost listed = list@;
        let ghost shorter = part@;
        proof {
            assert(here.drop_last() == before);
            assert(here.last() == s@[i as int]);
        }
        if s[i] == sep {
            list.push(part);
            part = Vec::new();
            assert(views(list@) =~= views(listed).push(shorter));
        } else {
            part.push(s[i]);
            proof {
                let rest = views(listed).push(shorter);
                assert(rest.update(rest.len() - 1, rest.last().push(s@[i as int])) =~= views(
                    list@,
                ).push(part@));
            }
        }
        i += 1;
    }
    assert(s@.take(s@.len() as int) == s@);
    let ghost listed = list@;
    let ghost last = part@;
    list.push(part);
    assert(views(list@) =~= views(listed).push(last));
    list
}

pub(crate) fn code_point(c: char) -> (n: u32)
    ensures
        n == c as int,
        n <= 0x10FFFF,
{
    c as u32
}

/// The UTF-16 units of a character.
pub open spec fn units(c: char) -> Seq<u16> {
    let n = c as int;
    if n < 0x10000 {
        seq![n as u16]
    } else {
        seq![
            (0xD800 + (n - 0x10000) / 0x400) as u16,
            (0xDC00 + (n - 0x10000) % 0x400) as u16,
        ]
    }
}

/// The text in UTF-16.
pub open spec fn utf16(s: Seq<char>) -> Seq<u16>
    decreases s.len(),
{
    if s.len() == 0 {
        Seq::empty()
    } else {
        utf16(s.drop_last()) + units(s.last())
    }
}

pub fn utf16_of(s: &[char]) -> (out: Vec<u16>)
    ensures
        out@ == utf16(s@),
{
    let mut out: Vec<u16> = Vec::new();
    let mut i: usize = 0;
    assert(s@.take(0) == Seq::<char>::empty());
    while i < s.len()
        invariant
            i <= s@.len(),
            out@ == utf16(s@.take(i as int)),
        decreases s@.len() - i,
    {
        let c: char = s[i];
        let n: u32 = code_point(c);
        let ghost before = out@;
        if n < 0x10000 {
            out.push(n as u16);
            assert(out@ =~= before + units(s@[i as int]));
        } else {
            let high: u16 = (0xD800 + (n - 0x10000) / 0x400) as u16;
            let low: u16 = (0xDC00 + (n - 0x10000) % 0x400) as u16;
            out.push(high);
            out.push(low);
            assert(out@ =~= before + units(s@[i as int]));
        }
        assert(s@.take(i + 1).drop_last() == s@.take(i as int));
        assert(s@.take(i + 1).last() == s@[i as int]);
        i += 1;
    }
    assert(s@.take(s@.len() as int) == s@);
    out
}

/// How many bytes a character takes in UTF-8.
pub open spec fn width(c: char) -> nat {
    let n = c as int;
    if n < 0x80 {
        1
    } else if n < 0x800 {
        2
    } else if n < 0x10000 {
        3
    } else {
        4
    }
}

pub fn width_of(c: char) -> (w: usize)
    ensures
        w == width(c),
        1 <= w <= 4,
{
    let n: u32 = code_point(c);
    if n < 0x80 {
        1
    } else if n < 0x800 {
        2
    } else if n < 0x10000 {
        3
    } else {
        4
    }
}

/// How many bytes a text takes in UTF-8.
pub open spec fn byte_len(s: Seq<char>) -> nat
    decreases s.len(),
{
    if s.len() == 0 {
        0
    } else {
        byte_len(s.drop_last()) + width(s.last())
    }
}

/// The byte at which character `i` of a text starts.
pub open spec fn byte_at(s: Seq<char>, i: int) -> nat {
    byte_len(s.take(i))
}

/// The character that starts at a byte.
pub open spec fn char_index(s: Seq<char>, byte: int) -> int {
    choose|i: int| 0 <= i <= s.len() && #[trigger] byte_at(s, i) == byte
}

/// Whether a character starts, or the text ends, at a byte.
pub open spec fn boundary(s: Seq<char>, byte: int) -> bool {
    exists|i: int| 0 <= i <= s.len() && #[trigger] byte_at(s, i) == byte
}

pub proof fn lemma_byte_step(s: Seq<char>, i: int)
    requires
        0 <= i < s.len(),
    ensures
        byte_at(s, i + 1) == byte_at(s, i) + width(s[i]),
{
    assert(s.take(i + 1).drop_last() =~= s.take(i));
}

/// Later characters start at later bytes.
pub proof fn lemma_bytes_grow(s: Seq<char>, i: int, j: int)
    requires
        0 <= i < j <= s.len(),
    ensures
        byte_at(s, i) + (j - i) <= byte_at(s, j) <= byte_at(s, i) + 4 * (j - i),
    decreases j - i,
{
    lemma_byte_step(s, j - 1);
    if i < j - 1 {
        lemma_bytes_grow(s, i, j - 1);
    }
}

/// A byte belongs to one character.
pub proof fn lemma_char_index(s: Seq<char>, i: int)
    requires
        0 <= i <= s.len(),
    ensures
        char_index(s, byte_at(s, i) as int) == i,
        boundary(s, byte_at(s, i) as int),
{
    let j = char_index(s, byte_at(s, i) as int);
    assert(0 <= j <= s.len() && byte_at(s, j) == byte_at(s, i));
    if j < i {
        lemma_bytes_grow(s, j, i);
    } else if i < j {
        lemma_bytes_grow(s, i, j);
    }
}

/// The character that starts at a byte, if one does.
pub fn char_index_of(s: &[char], byte: usize) -> (at: Option<usize>)
    ensures
        match at {
            Some(i) => i <= s@.len() && byte_at(s@, i as int) == byte && char_index(
                s@,
                byte as int,
            ) == i,
            None => !boundary(s@, byte as int),
        },
{
    let mut here: usize = 0;
    let mut i: usize = 0;
    assert(s@.take(0) =~= Seq::<char>::empty());
    while here < byte && i < s.len()
        invariant
            i <= s@.len(),
            here == byte_at(s@, i as int),
            here <= byte,
        decreases s@.len() - i,
    {
        let w = width_of(s[i]);
        proof {
            lemma_byte_step(s@, i as int);
        }
        if w > byte - here {
            proof {
                assert forall|j: int| 0 <= j <= s@.len() implies #[trigger] byte_at(s@, j)
                    != byte by {
                    if j <= i {
                        if j < i {
                            lemma_bytes_grow(s@, j, i as int);
                        }
                    } else if j > i + 1 {
                        lemma_bytes_grow(s@, i + 1, j);
                    }
                }
            }
            return None;
        }
        here += w;
        i += 1;
    }
    if here == byte {
        proof {
            lemma_char_index(s@, i as int);
        }
        Some(i)
    } else {
        proof {
            assert forall|j: int| 0 <= j <= s@.len() implies #[trigger] byte_at(s@, j) != byte by {
                if j < i {
                    lemma_bytes_grow(s@, j, i as int);
                }
            }
        }
        None
    }
}

/// Only ASCII characters.
pub open spec fn plain(s: Seq<char>) -> bool {
    forall|i: int| 0 <= i < s.len() ==> (#[trigger] s[i] as int) < 128
}

pub open spec fn ascii_upper(c: char) -> char {
    if 'a' <= c && c <= 'z' {
        (c as u32 - 32) as char
    } else {
        c
    }
}

/// ASCII letters in upper case, everything else as it is.
pub open spec fn ascii_uppered(s: Seq<char>) -> Seq<char> {
    s.map_values(|c: char| ascii_upper(c))
}

/// Trimming takes white space off both ends and nothing else: what goes before and
/// after the piece that is left is white space, and the piece neither starts nor
/// ends with any.
pub proof fn trimming_takes_only_white_space(s: Seq<char>) -> (ends: (int, int))
    ensures
        0 <= ends.0 <= ends.1 <= s.len(),
        trim(s) == s.subrange(ends.0, ends.1),
        forall|i: int| 0 <= i < ends.0 ==> white_space(#[trigger] s[i]),
        forall|i: int| ends.1 <= i < s.len() ==> white_space(#[trigger] s[i]),
        ends.0 < ends.1 ==> !white_space(s[ends.0]) && !white_space(s[ends.1 - 1]),
{
    let from = lemma_front_is_white(s);
    let t = trim_start(s);
    lemma_end_is_white(t);
    lemma_trim_end(t);
    lemma_trim_start(s);
    let to = from + trim(s).len();
    assert(trim(s) =~= s.subrange(from, to));
    assert forall|i: int| to <= i < s.len() implies white_space(#[trigger] s[i]) by {
        assert(t[i - from] == s[i]);
    }
    if from < to {
        assert(trim(s)[0] == s[from]);
        assert(t[0] == s[from]);
        assert(trim(s).last() == s[to - 1]);
    }
    (from, to)
}

proof fn lemma_front_is_white(s: Seq<char>) -> (from: int)
    ensures
        0 <= from <= s.len(),
        trim_start(s) == s.skip(from),
        forall|i: int| 0 <= i < from ==> white_space(#[trigger] s[i]),
    decreases s.len(),
{
    if s.len() > 0 && white_space(s[0]) {
        let from = lemma_front_is_white(s.skip(1));
        assert(s.skip(1).skip(from) =~= s.skip(from + 1));
        assert forall|i: int| 0 <= i < from + 1 implies white_space(#[trigger] s[i]) by {
            if i > 0 {
                assert(s.skip(1)[i - 1] == s[i]);
            }
        }
        from + 1
    } else {
        assert(s.skip(0) =~= s);
        0
    }
}

proof fn lemma_end_is_white(s: Seq<char>)
    ensures
        forall|i: int| trim_end(s).len() <= i < s.len() ==> white_space(#[trigger] s[i]),
    decreases s.len(),
{
    if s.len() > 0 && white_space(s.last()) {
        let less = s.drop_last();
        lemma_end_is_white(less);
        assert forall|i: int| trim_end(s).len() <= i < s.len() implies white_space(
            #[trigger] s[i],
        ) by {
            if i < less.len() {
                assert(less[i] == s[i]);
            }
        }
    }
}

/// The usual white space is white space, and no printed ASCII character is.
pub proof fn white_space_is_what_is_not_printed(c: char)
    ensures
        c == ' ' || c == '\t' || c == '\n' || c == '\r' ==> white_space(c),
        0x21 <= c as int <= 0x7E ==> !white_space(c),
{
}

/// A text that stands in another, which stands in a third, stands in the third.
pub proof fn standing_in_carries_over(a: Seq<char>, b: Seq<char>, c: Seq<char>)
    requires
        occurs_in(a, b),
        occurs_in(b, c),
    ensures
        occurs_in(a, c),
{
    let i = choose|i: int| stands_at(b, a, i);
    let j = choose|j: int| stands_at(c, b, j);
    assert(c.subrange(i + j, i + j + a.len()) =~= a) by {
        assert forall|k: int| 0 <= k < a.len() implies c[i + j + k] == a[k] by {
            assert(b.subrange(i, i + a.len())[k] == a[k]);
            assert(c.subrange(j, j + b.len())[i + k] == b[i + k]);
        }
    }
    assert(stands_at(c, a, i + j));
}

/// Every part of a joined text stands in it; the first at its start, the last at
/// its end.
pub proof fn every_part_stands_in_the_whole(parts: Seq<Seq<char>>, sep: Seq<char>, i: int)
    requires
        0 <= i < parts.len(),
    ensures
        occurs_in(parts[i], joined(parts, sep)),
        parts[0].is_prefix_of(joined(parts, sep)),
        parts.last().is_suffix_of(joined(parts, sep)),
    decreases parts.len(),
{
    let whole = joined(parts, sep);
    if parts.len() == 1 {
        assert(whole.subrange(0, whole.len() as int) =~= parts[0]);
        assert(stands_at(whole, parts[0], 0));
    } else {
        let rest = parts.drop_last();
        let front = joined(rest, sep);
        let last = parts.last();
        every_part_stands_in_the_whole(
            rest,
            sep,
            if i < rest.len() {
                i
            } else {
                0
            },
        );
        assert(rest[0] == parts[0]);
        assert(whole.take(parts[0].len() as int) =~= front.take(parts[0].len() as int));
        assert(whole.skip(whole.len() - last.len()) =~= last);
        if i < rest.len() {
            assert(rest[i] == parts[i]);
            assert(whole.subrange(0, front.len() as int) =~= front);
            assert(stands_at(whole, front, 0));
            standing_in_carries_over(parts[i], front, whole);
        } else {
            assert(whole.subrange(whole.len() - last.len(), whole.len() as int) =~= last);
            assert(stands_at(whole, last, whole.len() - last.len()));
        }
    }
}

/// A part without a separator, behind one, is one part more; alone it is the only
/// one.
pub proof fn a_separator_parts(s: Seq<char>, part: Seq<char>, sep: char)
    requires
        !part.contains(sep),
    ensures
        split(part, sep) == seq![part],
        split(s + seq![sep] + part, sep) == split(s, sep).push(part),
    decreases part.len(),
{
    let whole = s + seq![sep] + part;
    if part.len() == 0 {
        assert(part =~= Seq::<char>::empty());
        assert(whole.drop_last() =~= s);
        assert(whole.last() == sep);
        assert(split(part, sep) =~= seq![part]);
        assert(split(whole, sep) =~= split(s, sep).push(part));
    } else {
        let less = part.drop_last();
        let c = part.last();
        assert(part.contains(c));
        assert(!less.contains(sep)) by {
            if less.contains(sep) {
                let i = choose|i: int| 0 <= i < less.len() && less[i] == sep;
                assert(part[i] == sep);
            }
        }
        a_separator_parts(s, less, sep);
        assert(whole.drop_last() =~= s + seq![sep] + less);
        assert(whole.last() == c);
        assert(less.push(c) =~= part);
        assert(split(part, sep) =~= seq![part]);
        assert(split(whole, sep) =~= split(s, sep).push(part));
    }
}

/// A number is written with its digits, the last one last.
pub proof fn a_number_is_written_in_digits(n: nat, d: nat)
    requires
        d < 10,
        n > 0,
    ensures
        decimal(n * 10 + d) == decimal(n).push((d + 48) as char),
        decimal(d) == seq![(d + 48) as char],
{
    assert((n * 10 + d) / 10 == n);
    assert((n * 10 + d) % 10 == d);
}

/// A character of the basic plane is its code in UTF-16, any other a pair of
/// surrogates that together hold it; a text is that of its characters in order.
pub proof fn utf16_holds_every_character(s: Seq<char>, c: char)
    ensures
        utf16(s.push(c)) == utf16(s) + units(c),
        (c as int) < 0x10000 ==> units(c) == seq![c as u16],
        (c as int) >= 0x10000 ==> units(c).len() == 2 && 0xD800 <= units(c)[0] < 0xDC00 && 0xDC00
            <= units(c)[1] < 0xE000 && (units(c)[0] - 0xD800) * 0x400 + (units(c)[1] - 0xDC00)
            + 0x10000 == c as int,
{
    assert(s.push(c).drop_last() =~= s);
}

/// A part is joined to what is before it by the separator, and a single part by
/// nothing.
pub proof fn parts_are_joined_by_the_separator(
    parts: Seq<Seq<char>>,
    sep: Seq<char>,
    part: Seq<char>,
)
    ensures
        parts.len() > 0 ==> joined(parts.push(part), sep) == joined(parts, sep) + sep + part,
        joined(seq![part], sep) == part,
        joined(Seq::empty(), sep) == Seq::<char>::empty(),
{
    assert(parts.push(part).drop_last() =~= parts);
}

/// A run behind a character that is not inside, or at the start, is one run more.
pub proof fn a_run_behind_a_gap_is_one_more(
    s: Seq<char>,
    word: Seq<char>,
    inside: spec_fn(char) -> bool,
)
    requires
        word.len() > 0,
        s.len() > 0 ==> !inside(s.last()),
        forall|i: int| 0 <= i < word.len() ==> inside(#[trigger] word[i]),
    ensures
        runs(s + word, inside) == runs(s, inside).push(word),
    decreases word.len(),
{
    let whole = s + word;
    let less = word.drop_last();
    assert(inside(word[word.len() - 1]));
    assert(whole.last() == word.last());
    assert(whole.drop_last() =~= s + less);
    if less.len() == 0 {
        assert(s + less =~= s);
        assert(word =~= seq![word.last()]);
        if s.len() > 0 {
            assert(whole[whole.len() - 2] == s.last());
        }
    } else {
        assert forall|i: int| 0 <= i < less.len() implies inside(#[trigger] less[i]) by {
            assert(less[i] == word[i]);
        }
        a_run_behind_a_gap_is_one_more(s, less, inside);
        assert(whole[whole.len() - 2] == word[word.len() - 2]);
        assert(less.push(word.last()) =~= word);
        assert(runs(whole, inside) =~= runs(s, inside).push(word));
    }
}

/// White space parts the words: behind it a run without any is one word more, and
/// white space itself is none.
pub proof fn white_space_parts_the_words(s: Seq<char>, gap: char, word: Seq<char>)
    requires
        white_space(gap),
        word.len() > 0,
        forall|i: int| 0 <= i < word.len() ==> !white_space(#[trigger] word[i]),
    ensures
        words(word) == seq![word],
        words(s.push(gap)) == words(s),
        words(s.push(gap) + word) == words(s).push(word),
        words(Seq::empty()) == Seq::<Seq<char>>::empty(),
{
    let inside = |c: char| !white_space(c);
    let none = Seq::<char>::empty();
    a_run_behind_a_gap_is_one_more(none, word, inside);
    assert(none + word =~= word);
    assert(words(word) =~= seq![word]);
    assert(s.push(gap).drop_last() =~= s);
    a_run_behind_a_gap_is_one_more(s.push(gap), word, inside);
}

/// Lower case changes the letters A to Z into a to z and nothing else.
pub proof fn lower_case_changes_capitals_alone(c: char)
    ensures
        'A' <= c && c <= 'Z' ==> ascii_lower(c) as int == c as int + 32,
        !('A' <= c && c <= 'Z') ==> ascii_lower(c) == c,
        'a' <= c && c <= 'z' ==> ascii_upper(c) as int == c as int - 32,
        !('a' <= c && c <= 'z') ==> ascii_upper(c) == c,
{
}

/// A text takes the bytes of its characters in UTF-8, one for ASCII and up to four.
pub proof fn bytes_are_counted_one_by_one(s: Seq<char>, c: char)
    ensures
        byte_len(s.push(c)) == byte_len(s) + width(c),
        byte_len(Seq::empty()) == 0,
        width(c) == 1 <==> (c as int) < 0x80,
        width(c) == 2 <==> 0x80 <= c as int && (c as int) < 0x800,
        width(c) == 3 <==> 0x800 <= c as int && (c as int) < 0x10000,
        width(c) == 4 <==> 0x10000 <= c as int,
{
    assert(s.push(c).drop_last() =~= s);
}

} // verus!
