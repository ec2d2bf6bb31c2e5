//! The "never insert garbage" gate between cleanup and insertion.
//!
//! It defends against what a cleanup model does wrong: answering the dictation
//! instead of cleaning it, drifting into paraphrase, inventing content, dropping
//! it. On rejection the caller inserts the raw transcript.

use std::collections::HashSet;

use vstd::prelude::*;

use crate::pattern::{
    digits_leave_no_word,
    free_of,
    is_match,
    lone_word,
    only_lone_words_are_replaced,
    pattern_found,
    pattern_replaced,
    replace_all,
    short_word,
    starts_with_word,
    word_char,
    word_replaced,
};
use crate::rank::picked;
use crate::text::{
    a_run_behind_a_gap_is_one_more,
    ascii_lower,
    ascii_lowered,
    chars_of,
    decimal,
    has_part,
    has_prefix,
    is_white_space,
    occurs_in,
    plain,
    runs,
    runs_of,
    same_chars,
    same_text,
    slice_of,
    stands_at,
    string_of,
    texts,
    trim,
    trimmed,
    views,
    white_space,
};
use crate::unicode::{
    ascii_alphanumeric,
    in_lower_case,
    is_alphanumeric,
    letter_or_digit,
    to_lowercase,
};

verus! {

/// How a model that answers begins.
pub const ANSWER_PATTERN: &'static str = "(?i)^(sure|okay|certainly|of course|great question|here('s| is)|i can('|no)t|as an ai|i'm (sorry|an ai))\\b";

/// A code fence, with the language it may name.
pub const CODE_FENCE_PATTERN: &'static str = "(?i)```[a-z]*\\n?";

/// Why a cleaned text was rejected, with the counts that decided it.
#[derive(Debug, Clone, Copy, PartialEq, Eq, Structural)]
pub enum Reason {
    EmptyOutput,
    AnswerPattern,
    AiSelfReference,
    /// So many cleaned words for so many raw ones.
    Expansion { clean: usize, raw: usize },
    Shrink { clean: usize, raw: usize },
    /// So few of the cleaned words, and of the letter triples, are in the raw
    /// text.
    Divergence { contained: usize, clean: usize, shared: usize, smaller: usize },
}

impl Reason {
    pub open spec fn label(self) -> Seq<char> {
        match self {
            Reason::EmptyOutput => "empty_output"@,
            Reason::AnswerPattern => "answer_pattern"@,
            Reason::AiSelfReference => "ai_selfreference"@,
            Reason::Expansion { .. } => "expansion_ratio"@,
            Reason::Shrink { .. } => "shrink_ratio"@,
            Reason::Divergence { .. } => "content_divergence"@,
        }
    }

    /// What the log calls it.
    pub fn tag(self) -> (tag: &'static str)
        ensures
            tag@ == self.label(),
    {
        match self {
            Reason::EmptyOutput => "empty_output",
            Reason::AnswerPattern => "answer_pattern",
            Reason::AiSelfReference => "ai_selfreference",
            Reason::Expansion { .. } => "expansion_ratio",
            Reason::Shrink { .. } => "shrink_ratio",
            Reason::Divergence { .. } => "content_divergence",
        }
    }
}

#[derive(Debug, Clone, Copy, PartialEq, Eq, Structural)]
pub struct Verdict {
    pub accepted: bool,
    pub reason: Option<Reason>,
}

impl Verdict {
    pub open spec fn of(reason: Option<Reason>) -> Verdict {
        Verdict { accepted: reason is None, reason }
    }

    fn ok() -> (verdict: Self)
        ensures
            verdict == Verdict::of(None),
    {
        Verdict { accepted: true, reason: None }
    }

    fn fail(reason: Reason) -> (verdict: Self)
        ensures
            verdict == Verdict::of(Some(reason)),
    {
        Verdict { accepted: false, reason: Some(reason) }
    }
}

/// The text without any `part` in it, each taken out from left to right.
pub open spec fn without(s: Seq<char>, part: Seq<char>) -> Seq<char>
    decreases s.len(),
{
    if s.len() == 0 || part.len() == 0 {
        s
    } else if part.is_prefix_of(s) {
        without(s.skip(part.len() as int), part)
    } else {
        seq![s[0]] + without(s.skip(1), part)
    }
}

fn remove_all(s: &Vec<char>, part: &Vec<char>) -> (out: Vec<char>)
    requires
        part@.len() > 0,
    ensures
        out@ == without(s@, part@),
{
    let n: usize = s.len();
    let k: usize = part.len();
    let mut out: Vec<char> = Vec::new();
    let mut i: usize = 0;
    assert(s@.skip(0) =~= s@);
    assert(out@ + without(s@, part@) =~= without(s@, part@));
    while i < n
        invariant
            n == s@.len(),
            k == part@.len(),
            k > 0,
            i <= n,
            without(s@, part@) == out@ + without(s@.skip(i as int), part@),
        decreases n - i,
    {
        let ghost rest = s@.skip(i as int);
        let here = slice_of(s, i, n);
        assert(here@ =~= rest);
        if has_prefix(&here, part) {
            assert(rest.skip(k as int) =~= s@.skip(i + k));
            i += k;
        } else {
            let ghost before = out@;
            out.push(s[i]);
            proof {
                assert(rest.skip(1) =~= s@.skip(i + 1));
                assert(before + (seq![s@[i as int]] + without(s@.skip(i + 1), part@)) =~= out@
                    + without(s@.skip(i + 1), part@));
            }
            i += 1;
        }
    }
    assert(s@.skip(n as int) =~= Seq::<char>::empty());
    assert(out@ + Seq::<char>::empty() =~= out@);
    out
}

/// The text without `label` in front of it.
pub open spec fn unlabelled(s: Seq<char>, label: Seq<char>) -> Seq<char> {
    if label.is_prefix_of(s) {
        trim(s.skip(label.len() as int))
    } else {
        s
    }
}

fn strip_label(s: Vec<char>, label: &str) -> (out: Vec<char>)
    ensures
        out@ == unlabelled(s@, label@),
{
    let label = chars_of(label);
    if has_prefix(&s, &label) {
        let rest = slice_of(&s, label.len(), s.len());
        assert(rest@ =~= s@.skip(label@.len() as int));
        trimmed(&rest)
    } else {
        s
    }
}

/// The text without the quotes around it.
pub open spec fn unquoted(s: Seq<char>) -> Seq<char> {
    if s.len() > 1 && s[0] == '"' && s.last() == '"' {
        s.subrange(1, s.len() - 1)
    } else {
        s
    }
}

/// Without labels and quotes.
pub open spec fn unwrapped(s: Seq<char>) -> Seq<char> {
    unquoted(
        unlabelled(
            unlabelled(unlabelled(unlabelled(s, "CLEAN:"@), "Clean:"@), "Transcript:"@),
            "TRANSCRIPT:"@,
        ),
    )
}

/// A trimmed text that starts with a code fence.
pub open spec fn fenced(s: Seq<char>) -> bool {
    "```"@.is_prefix_of(s)
}

/// The clean text, given the trimmed one and what taking the fences out of it
/// left.
pub open spec fn stripped(s: Seq<char>, unfenced: Option<Seq<char>>) -> Seq<char> {
    if fenced(s) {
        unwrapped(
            trim(
                without(
                    match unfenced {
                        Some(rest) => rest,
                        None => s,
                    },
                    "```"@,
                ),
            ),
        )
    } else {
        unwrapped(s)
    }
}

/// Takes off what is left around a text once its fences are out.
pub fn strip_unfenced(text: &str, unfenced: Option<&str>) -> (out: String)
    ensures
        out@ == stripped(
            text@,
            (match unfenced {
                Some(rest) => Some(rest@),
                None => None,
            }),
        ),
{
    let mut s = chars_of(text);
    proof {
        reveal_strlit("```");
    }
    let fence = chars_of("```");
    if has_prefix(&s, &fence) {
        let rest = match unfenced {
            Some(rest) => chars_of(rest),
            None => s,
        };
        s = trimmed(&remove_all(&rest, &fence));
    }
    s = strip_label(s, "CLEAN:");
    s = strip_label(s, "Clean:");
    s = strip_label(s, "Transcript:");
    s = strip_label(s, "TRANSCRIPT:");
    let n: usize = s.len();
    if n > 1 && s[0] == '"' && s[n - 1] == '"' {
        let inner = slice_of(&s, 1, n - 1);
        return string_of(&inner);
    }
    string_of(&s)
}

/// A model's text without what is around it.
pub open spec fn bare_text(text: Seq<char>) -> Seq<char> {
    stripped(trim(text), pattern_replaced(CODE_FENCE_PATTERN@, trim(text), Seq::empty()))
}

/// Strips what is around a model's text without being a failure: code fences,
/// labels, wrapping quotes.
pub fn strip_artifacts(text: &str) -> (out: String)
    ensures
        out@ == bare_text(text@),
{
    let s = string_of(&trimmed(&chars_of(text)));
    proof {
        reveal_strlit("");
        assert(""@ =~= Seq::<char>::empty());
    }
    match replace_all(CODE_FENCE_PATTERN, s.as_str(), "") {
        Some(rest) => strip_unfenced(s.as_str(), Some(rest.as_str())),
        None => strip_unfenced(s.as_str(), None),
    }
}

/// Spoken numbers and how they are written.
pub open spec fn number_words() -> Seq<(Seq<char>, Seq<char>)> {
    seq![
        ("zero"@, "0"@),
        ("one"@, "1"@),
        ("two"@, "2"@),
        ("three"@, "3"@),
        ("four"@, "4"@),
        ("five"@, "5"@),
        ("six"@, "6"@),
        ("seven"@, "7"@),
        ("eight"@, "8"@),
        ("nine"@, "9"@),
        ("ten"@, "10"@),
        ("eleven"@, "11"@),
        ("twelve"@, "12"@),
        ("twenty"@, "20"@),
        ("thirty"@, "30"@),
        ("forty"@, "40"@),
        ("fifty"@, "50"@),
        ("hundred"@, "100"@),
    ]
}

fn number_word_list() -> (list: Vec<(&'static str, &'static str)>)
    ensures
        list@.map_values(|p: (&'static str, &'static str)| (p.0@, p.1@)) == number_words(),
{
    let mut list: Vec<(&'static str, &'static str)> = Vec::new();
    list.push(("zero", "0"));
    list.push(("one", "1"));
    list.push(("two", "2"));
    list.push(("three", "3"));
    list.push(("four", "4"));
    list.push(("five", "5"));
    list.push(("six", "6"));
    list.push(("seven", "7"));
    list.push(("eight", "8"));
    list.push(("nine", "9"));
    list.push(("ten", "10"));
    list.push(("eleven", "11"));
    list.push(("twelve", "12"));
    list.push(("twenty", "20"));
    list.push(("thirty", "30"));
    list.push(("forty", "40"));
    list.push(("fifty", "50"));
    list.push(("hundred", "100"));
    assert(list@.map_values(|p: (&'static str, &'static str)| (p.0@, p.1@)) =~= number_words());
    list
}

/// A text of digits.
pub open spec fn all_digits(s: Seq<char>) -> bool {
    s.len() > 0 && forall|i: int| 0 <= i < s.len() ==> '0' <= #[trigger] s[i] && s[i] <= '9'
}

/// Words, each with its digits.
pub open spec fn spelled_numbers(list: Seq<(Seq<char>, Seq<char>)>) -> bool {
    forall|i: int|
        0 <= i < list.len() ==> short_word((#[trigger] list[i]).0) && all_digits(list[i].1)
}

proof fn lemma_number_words()
    ensures
        spelled_numbers(number_words()),
{
    reveal_strlit("zero");
    reveal_strlit("one");
    reveal_strlit("two");
    reveal_strlit("three");
    reveal_strlit("four");
    reveal_strlit("five");
    reveal_strlit("six");
    reveal_strlit("seven");
    reveal_strlit("eight");
    reveal_strlit("nine");
    reveal_strlit("ten");
    reveal_strlit("eleven");
    reveal_strlit("twelve");
    reveal_strlit("twenty");
    reveal_strlit("thirty");
    reveal_strlit("forty");
    reveal_strlit("fifty");
    reveal_strlit("hundred");
    reveal_strlit("0");
    reveal_strlit("1");
    reveal_strlit("2");
    reveal_strlit("3");
    reveal_strlit("4");
    reveal_strlit("5");
    reveal_strlit("6");
    reveal_strlit("7");
    reveal_strlit("8");
    reveal_strlit("9");
    reveal_strlit("10");
    reveal_strlit("11");
    reveal_strlit("12");
    reveal_strlit("20");
    reveal_strlit("30");
    reveal_strlit("40");
    reveal_strlit("50");
    reveal_strlit("100");
}

proof fn lemma_lone_word(word: Seq<char>)
    requires
        short_word(word),
    ensures
        lone_word("\\b"@ + word + "\\b"@) == Some(word),
{
    reveal_strlit("\\b");
    let pattern = "\\b"@ + word + "\\b"@;
    let n = pattern.len() as int;
    assert(pattern.take(2) =~= "\\b"@);
    assert(pattern.skip(n - 2) =~= "\\b"@);
    assert(pattern.subrange(2, n - 2) =~= word);
}

/// The text with a word, where it stands alone, written as a number.
pub open spec fn written(s: Seq<char>, word: Seq<char>, digits: Seq<char>) -> Seq<char> {
    word_replaced(s, word, digits, false)
}

/// The text with each of the words written as its number, one after the other.
pub open spec fn written_all(s: Seq<char>, list: Seq<(Seq<char>, Seq<char>)>) -> Seq<char>
    decreases list.len(),
{
    if list.len() == 0 {
        s
    } else {
        written(written_all(s, list.drop_last()), list.last().0, list.last().1)
    }
}

/// The text in lower case with spoken numbers as digits.
pub open spec fn normal(text: Seq<char>) -> Seq<char> {
    written_all(in_lower_case(text), number_words())
}

pub fn normalize(text: &str) -> (out: String)
    ensures
        out@ == normal(text@),
{
    let list = number_word_list();
    let ghost all = number_words();
    let mut s = to_lowercase(text);
    let mut i: usize = 0;
    assert(all.take(0) =~= Seq::<(Seq<char>, Seq<char>)>::empty());
    while i < list.len()
        invariant
            i <= list@.len(),
            all == number_words(),
            all == list@.map_values(|p: (&'static str, &'static str)| (p.0@, p.1@)),
            s@ == written_all(in_lower_case(text@), all.take(i as int)),
        decreases list@.len() - i,
    {
        let (word, digits) = list[i];
        let mut pattern = "\\b".to_owned();
        pattern.append(word);
        pattern.append("\\b");
        proof {
            assert(all.take(i + 1).drop_last() =~= all.take(i as int));
            assert(all.take(i + 1).last() == all[i as int]);
            assert(all[i as int] == (word@, digits@));
            lemma_number_words();
            lemma_lone_word(word@);
            assert(all_digits(digits@));
            assert(!digits@.contains('$'));
        }
        match replace_all(pattern.as_str(), s.as_str(), digits) {
            Some(out) => {
                s = out;
            },
            None => {},
        }
        i += 1;
    }
    assert(all.take(all.len() as int) =~= all);
    s
}

/// The words of a normalized text: its runs of letters and digits.
pub open spec fn content(normalized: Seq<char>) -> Seq<Seq<char>> {
    runs(normalized, |c: char| letter_or_digit(c))
}

/// The words of a text that is already normalized.
pub fn words_in(normalized: &str) -> (list: Vec<String>)
    ensures
        texts(list@) == content(normalized@),
{
    let chars = chars_of(normalized);
    let ghost inside = |c: char| letter_or_digit(c);
    let mut mask: Vec<bool> = Vec::new();
    let mut i: usize = 0;
    while i < chars.len()
        invariant
            i <= chars@.len(),
            inside == (|c: char| letter_or_digit(c)),
            mask@.len() == i,
            forall|k: int| 0 <= k < i ==> #[trigger] mask@[k] == inside(chars@[k]),
        decreases chars@.len() - i,
    {
        mask.push(is_alphanumeric(chars[i]));
        i += 1;
    }
    let found = runs_of(&chars, &mask, Ghost(inside));
    let mut list: Vec<String> = Vec::new();
    let mut j: usize = 0;
    while j < found.len()
        invariant
            j <= found@.len(),
            list@.len() == j,
            forall|k: int| 0 <= k < j ==> (#[trigger] list@[k])@ == found@[k]@,
        decreases found@.len() - j,
    {
        list.push(string_of(&found[j]));
        j += 1;
    }
    assert(texts(list@) =~= views(found@));
    list
}

/// Lower-case words with spoken numbers as digits, so that "three" as it was
/// said matches "3" as it was written.
pub fn content_words(text: &str) -> (list: Vec<String>)
    ensures
        texts(list@) == content(normal(text@)),
{
    words_in(normalize(text).as_str())
}

/// The text without white space.
pub open spec fn squeezed(s: Seq<char>) -> Seq<char> {
    picked(s, |c: char| !white_space(c))
}

/// The letter triples of a text, white space aside; of a shorter text, all of it.
pub open spec fn grams(s: Seq<char>) -> Seq<Seq<char>> {
    let t = squeezed(s);
    if t.len() == 0 {
        Seq::empty()
    } else if t.len() < 3 {
        seq![t]
    } else {
        Seq::new((t.len() - 2) as nat, |i: int| t.subrange(i, i + 3))
    }
}

/// How much of two texts' letter triples is shared: so many, of so many in the
/// text that has fewer.
#[derive(Debug, Clone, Copy, PartialEq, Eq, Structural)]
pub struct Similarity {
    pub shared: usize,
    pub smaller: usize,
}

/// Whether a similarity is that of two texts. Without triples on one side it is
/// all or nothing.
pub open spec fn similarity(a: Seq<char>, b: Seq<char>, s: Similarity) -> bool {
    let ga = grams(a).to_set();
    let gb = grams(b).to_set();
    if grams(a).len() == 0 || grams(b).len() == 0 {
        s == (Similarity {
            shared: if a == b {
                1
            } else {
                0
            },
            smaller: 1,
        })
    } else {
        &&& s.shared == ga.intersect(gb).len()
        &&& s.smaller == (if ga.len() <= gb.len() {
            ga.len()
        } else {
            gb.len()
        })
    }
}

/// A short run of characters as one number.
pub open spec fn gram_code(g: Seq<char>) -> int
    decreases g.len(),
{
    if g.len() == 0 {
        0
    } else {
        gram_code(g.drop_last()) * 0x20_0000 + (g.last() as int + 1)
    }
}

spec fn short(g: Seq<char>) -> bool {
    g.len() <= 3 && forall|i: int| 0 <= i < g.len() ==> 0 <= #[trigger] g[i] as int <= 0x10FFFF
}

proof fn lemma_code_faithful(a: Seq<char>, b: Seq<char>)
    requires
        forall|i: int| 0 <= i < a.len() ==> 0 <= #[trigger] a[i] as int <= 0x10FFFF,
        forall|i: int| 0 <= i < b.len() ==> 0 <= #[trigger] b[i] as int <= 0x10FFFF,
        gram_code(a) == gram_code(b),
    ensures
        a == b,
    decreases a.len(),
{
    lemma_code_positive(a);
    lemma_code_positive(b);
    if a.len() == 0 || b.len() == 0 {
        assert(a =~= b);
    } else {
        let ra = a.drop_last();
        let rb = b.drop_last();
        lemma_code_positive(ra);
        lemma_code_positive(rb);
        assert(0 <= a[a.len() - 1] as int <= 0x10FFFF);
        assert(0 <= b[b.len() - 1] as int <= 0x10FFFF);
        assert(gram_code(ra) == gram_code(rb));
        assert forall|i: int| 0 <= i < ra.len() implies 0 <= #[trigger] ra[i] as int
            <= 0x10FFFF by {
            assert(ra[i] == a[i]);
        }
        assert forall|i: int| 0 <= i < rb.len() implies 0 <= #[trigger] rb[i] as int
            <= 0x10FFFF by {
            assert(rb[i] == b[i]);
        }
        lemma_code_faithful(ra, rb);
        assert(a.last() as int == b.last() as int);
        assert(a =~= ra.push(a.last()));
        assert(b =~= rb.push(b.last()));
    }
}

proof fn lemma_code_positive(g: Seq<char>)
    requires
        forall|i: int| 0 <= i < g.len() ==> 0 <= #[trigger] g[i] as int <= 0x10FFFF,
    ensures
        gram_code(g) >= 0,
        g.len() > 0 ==> gram_code(g) > 0,
    decreases g.len(),
{
    if g.len() > 0 {
        let r = g.drop_last();
        assert forall|i: int| 0 <= i < r.len() implies 0 <= #[trigger] r[i] as int
            <= 0x10FFFF by {
            assert(r[i] == g[i]);
        }
        lemma_code_positive(r);
        assert(0 <= g[g.len() - 1] as int);
    }
}

fn scalar(c: char) -> (n: u64)
    ensures
        n == c as int,
        n <= 0x10FFFF,
{
    c as u64
}

/// The number of the run of up to three characters from `from` to `to`.
fn code_of(t: &Vec<char>, from: usize, to: usize) -> (code: u64)
    requires
        from <= to <= t@.len(),
        to - from <= 3,
    ensures
        code == gram_code(t@.subrange(from as int, to as int)),
        short(t@.subrange(from as int, to as int)),
{
    let mut code: u64 = 0;
    let mut i: usize = from;
    assert(t@.subrange(from as int, from as int) =~= Seq::<char>::empty());
    while i < to
        invariant
            from <= i <= to <= t@.len(),
            to - from <= 3,
            code == gram_code(t@.subrange(from as int, i as int)),
            short(t@.subrange(from as int, i as int)),
            i - from == 0 ==> code == 0,
            i - from == 1 ==> code < 0x20_0000,
            i - from == 2 ==> code < 0x400_0000_0000,
        decreases to - i,
    {
        let n = scalar(t[i]);
        proof {
            let here = t@.subrange(from as int, i + 1);
            let before = t@.subrange(from as int, i as int);
            assert(here.drop_last() =~= before);
            assert(here.last() == t@[i as int]);
            assert forall|k: int| 0 <= k < here.len() implies 0 <= #[trigger] here[k] as int
                <= 0x10FFFF by {
                if k < before.len() {
                    assert(here[k] == before[k]);
                }
            }
        }
        code = code * 0x20_0000 + (n + 1);
        i += 1;
    }
    code
}

proof fn lemma_take_set<T>(s: Seq<T>, i: int)
    requires
        0 <= i < s.len(),
    ensures
        s.take(i + 1).to_set() == s.take(i).to_set().insert(s[i]),
{
    let now = s.take(i + 1);
    let before = s.take(i);
    assert forall|x: T| now.to_set().contains(x) == before.to_set().insert(s[i]).contains(x) by {
        if before.to_set().contains(x) {
            let k = choose|k: int| 0 <= k < before.len() && before[k] == x;
            assert(now[k] == x);
        }
        if x == s[i] {
            assert(now[i] == x);
        }
        if now.to_set().contains(x) && x != s[i] {
            let k = choose|k: int| 0 <= k < now.len() && now[k] == x;
            assert(before[k] == x);
        }
    }
    assert(now.to_set() =~= before.to_set().insert(s[i]));
}

/// Numbers, each once.
struct Codes {
    list: Vec<u64>,
    set: HashSet<u64>,
}

impl Codes {
    spec fn well_formed(self) -> bool {
        &&& self.list@.no_duplicates()
        &&& self.list@.to_set() == self.set@
    }

    fn new() -> (codes: Self)
        ensures
            codes.well_formed(),
            codes.set@ == Set::<u64>::empty(),
    {
        let codes = Codes { list: Vec::new(), set: HashSet::new() };
        assert(codes.list@.to_set() =~= Set::<u64>::empty());
        codes
    }

    fn put(&mut self, code: u64)
        requires
            old(self).well_formed(),
        ensures
            final(self).well_formed(),
            final(self).set@ == old(self).set@.insert(code),
    {
        broadcast use vstd::std_specs::hash::group_hash_axioms;

        let ghost before = self.list@;
        if self.set.insert(code) {
            self.list.push(code);
            proof {
                assert(!before.to_set().contains(code));
                assert forall|i: int, j: int|
                    0 <= i < self.list@.len() && 0 <= j < self.list@.len() && i
                        != j implies self.list@[i] != self.list@[j] by {
                    if i < before.len() && j == before.len() {
                        assert(before.to_set().contains(before[i]));
                    } else if j < before.len() && i == before.len() {
                        assert(before.to_set().contains(before[j]));
                    }
                }
                assert(self.list@.to_set() =~= before.to_set().insert(code)) by {
                    assert forall|x: u64| self.list@.to_set().contains(x) == before.to_set().insert(
                        code,
                    ).contains(x) by {
                        if before.to_set().contains(x) {
                            let k = choose|k: int| 0 <= k < before.len() && before[k] == x;
                            assert(self.list@[k] == x);
                        }
                        if x == code {
                            assert(self.list@[before.len() as int] == x);
                        }
                        if self.list@.to_set().contains(x) && x != code {
                            let k = choose|k: int|
                                0 <= k < self.list@.len() && self.list@[k] == x;
                            assert(before[k] == x);
                        }
                    }
                }
            }
        } else {
            assert(old(self).set@ =~= old(self).set@.insert(code));
        }
    }

    fn shared_with(&self, other: &Codes) -> (count: usize)
        requires
            self.well_formed(),
            other.well_formed(),
        ensures
            count == self.set@.intersect(other.set@).len(),
    {
        broadcast use vstd::std_specs::hash::group_hash_axioms;

        let mut count: usize = 0;
        let mut i: usize = 0;
        assert(self.list@.take(0).to_set().intersect(other.set@) =~= Set::<u64>::empty());
        while i < self.list.len()
            invariant
                i <= self.list@.len(),
                self.well_formed(),
                other.well_formed(),
                count <= i,
                self.list@.take(i as int).to_set().finite(),
                count == self.list@.take(i as int).to_set().intersect(other.set@).len(),
            decreases self.list@.len() - i,
        {
            let code = self.list[i];
            let ghost before = self.list@.take(i as int).to_set();
            let ghost here = self.list@.take(i + 1).to_set();
            proof {
                lemma_take_set(self.list@, i as int);
                assert(!before.contains(code)) by {
                    if before.contains(code) {
                        let first = self.list@.take(i as int);
                        let k = choose|k: int| 0 <= k < first.len() && first[k] == code;
                        assert(self.list@[k] == self.list@[i as int]);
                    }
                }
                let inter = before.intersect(other.set@);
                vstd::set_lib::lemma_len_intersect(before, other.set@);
                assert(inter.finite());
                if other.set@.contains(code) {
                    assert(here.intersect(other.set@) =~= inter.insert(code));
                } else {
                    assert(here.intersect(other.set@) =~= inter);
                }
            }
            if other.set.contains(&code) {
                count += 1;
            }
            i += 1;
        }
        assert(self.list@.take(self.list@.len() as int) =~= self.list@);
        count
    }
}

fn squeeze(s: &Vec<char>) -> (t: Vec<char>)
    ensures
        t@ == squeezed(s@),
{
    let ghost keeps = |c: char| !white_space(c);
    let mut t: Vec<char> = Vec::new();
    let mut i: usize = 0;
    assert(s@.take(0) =~= Seq::<char>::empty());
    while i < s.len()
        invariant
            i <= s@.len(),
            keeps == (|c: char| !white_space(c)),
            t@ == picked(s@.take(i as int), keeps),
        decreases s@.len() - i,
    {
        assert(s@.take(i + 1).drop_last() =~= s@.take(i as int));
        assert(s@.take(i + 1).last() == s@[i as int]);
        if !is_white_space(s[i]) {
            t.push(s[i]);
        }
        i += 1;
    }
    assert(s@.take(s@.len() as int) =~= s@);
    t
}

spec fn as_code(g: Seq<char>) -> u64 {
    gram_code(g) as u64
}

/// The numbers of a text's triples.
fn gram_codes(s: &Vec<char>) -> (codes: Codes)
    ensures
        codes.well_formed(),
        codes.set@ == grams(s@).to_set().map(|g: Seq<char>| as_code(g)),
        forall|i: int| 0 <= i < grams(s@).len() ==> short(#[trigger] grams(s@)[i]),
        forall|i: int|
            0 <= i < grams(s@).len() ==> as_code(#[trigger] grams(s@)[i]) == gram_code(
                grams(s@)[i],
            ),
{
    let t = squeeze(s);
    let n: usize = t.len();
    let ghost all = grams(s@);
    let mut codes = Codes::new();
    if n == 0 {
        assert(all.to_set().map(|g: Seq<char>| as_code(g)) =~= Set::<u64>::empty());
        return codes;
    }
    let size: usize = if n < 3 {
        n
    } else {
        3
    };
    let last: usize = n - size;
    let mut i: usize = 0;
    assert(all.len() == last + 1);
    assert(all.take(0).to_set().map(|g: Seq<char>| as_code(g)) =~= Set::<u64>::empty());
    while i <= last
        invariant
            n == t@.len(),
            t@ == squeezed(s@),
            n > 0,
            size == (if n < 3 {
                n
            } else {
                3
            }),
            last == n - size,
            all == grams(s@),
            all.len() == last + 1,
            i <= last + 1,
            codes.well_formed(),
            codes.set@ == all.take(i as int).to_set().map(|g: Seq<char>| as_code(g)),
            forall|k: int| 0 <= k < i ==> short(#[trigger] all[k]),
            forall|k: int| 0 <= k < i ==> as_code(#[trigger] all[k]) == gram_code(all[k]),
        decreases last + 1 - i,
    {
        let code = code_of(&t, i, i + size);
        proof {
            if n < 3 {
                assert(t@.subrange(0, n as int) =~= t@);
            }
            assert(all[i as int] == t@.subrange(i as int, i + size));
            assert(as_code(all[i as int]) == code);
            lemma_set_push(all, i as int);
        }
        codes.put(code);
        if i == last {
            assert(all.take(last + 1) =~= all);
            return codes;
        }
        i += 1;
    }
    assert(all.take(i as int) =~= all);
    codes
}

proof fn lemma_set_push(all: Seq<Seq<char>>, i: int)
    requires
        0 <= i < all.len(),
    ensures
        all.take(i + 1).to_set().map(|g: Seq<char>| as_code(g)) == all.take(i).to_set().map(
            |g: Seq<char>| as_code(g),
        ).insert(as_code(all[i])),
{
    let f = |g: Seq<char>| as_code(g);
    let before = all.take(i).to_set();
    let here = all.take(i + 1).to_set();
    lemma_take_set(all, i);
    let left = here.map(f);
    let right = before.map(f).insert(f(all[i]));
    assert forall|y: u64| left.contains(y) == right.contains(y) by {
        if left.contains(y) {
            let x = choose|x: Seq<char>| here.contains(x) && y == f(x);
            if x != all[i] {
                assert(before.contains(x) && y == f(x));
            }
        }
        if before.map(f).contains(y) {
            let x = choose|x: Seq<char>| before.contains(x) && y == f(x);
            assert(here.contains(x) && y == f(x));
        }
        if y == f(all[i]) {
            assert(here.contains(all[i]) && y == f(all[i]));
        }
    }
    assert(left =~= right);
}

proof fn lemma_codes_count(a: Seq<Seq<char>>, b: Seq<Seq<char>>, ca: Set<u64>, cb: Set<u64>)
    requires
        forall|i: int| 0 <= i < a.len() ==> short(#[trigger] a[i]),
        forall|i: int| 0 <= i < b.len() ==> short(#[trigger] b[i]),
        forall|i: int| 0 <= i < a.len() ==> as_code(#[trigger] a[i]) == gram_code(a[i]),
        forall|i: int| 0 <= i < b.len() ==> as_code(#[trigger] b[i]) == gram_code(b[i]),
        ca == a.to_set().map(|g: Seq<char>| as_code(g)),
        cb == b.to_set().map(|g: Seq<char>| as_code(g)),
    ensures
        ca.len() == a.to_set().len(),
        ca.intersect(cb).len() == a.to_set().intersect(b.to_set()).len(),
{
    broadcast use vstd::seq_lib::seq_to_set_is_finite;

    let f = |g: Seq<char>| as_code(g);
    let sa = a.to_set();
    let sb = b.to_set();
    assert forall|x: Seq<char>, y: Seq<char>|
        (sa.contains(x) || sb.contains(x)) && (sa.contains(y) || sb.contains(y)) && #[trigger] f(x)
            == #[trigger] f(y) implies x == y by {
        if sa.contains(x) {
            let k = choose|k: int| 0 <= k < a.len() && a[k] == x;
            assert(short(a[k]) && as_code(a[k]) == gram_code(a[k]));
        } else {
            let k = choose|k: int| 0 <= k < b.len() && b[k] == x;
            assert(short(b[k]) && as_code(b[k]) == gram_code(b[k]));
        }
        if sa.contains(y) {
            let k = choose|k: int| 0 <= k < a.len() && a[k] == y;
            assert(short(a[k]) && as_code(a[k]) == gram_code(a[k]));
        } else {
            let k = choose|k: int| 0 <= k < b.len() && b[k] == y;
            assert(short(b[k]) && as_code(b[k]) == gram_code(b[k]));
        }
        lemma_code_faithful(x, y);
    }
    vstd::set_lib::lemma_map_size(sa, ca, f);
    let both = sa.intersect(sb);
    assert(both.subset_of(sa));
    vstd::set_lib::lemma_set_subset_finite(sa, both);
    assert forall|c: u64| both.map(f).contains(c) == ca.intersect(cb).contains(c) by {
        if both.map(f).contains(c) {
            let x = choose|x: Seq<char>| both.contains(x) && c == f(x);
            assert(sa.contains(x) && sb.contains(x));
        }
        if ca.contains(c) && cb.contains(c) {
            let x = choose|x: Seq<char>| sa.contains(x) && c == f(x);
            let y = choose|y: Seq<char>| sb.contains(y) && c == f(y);
            assert(x == y);
            assert(both.contains(x) && c == f(x));
        }
    }
    assert(both.map(f) =~= ca.intersect(cb));
    vstd::set_lib::lemma_map_size(both, ca.intersect(cb), f);
}

/// How similar two texts are by their letter triples.
pub fn trigram_similarity(a: &str, b: &str) -> (s: Similarity)
    ensures
        similarity(a@, b@, s),
{
    let ca = chars_of(a);
    let cb = chars_of(b);
    let ga = gram_codes(&ca);
    let gb = gram_codes(&cb);
    proof {
        let (xa, xb) = (grams(a@), grams(b@));
        lemma_codes_count(xa, xb, ga.set@, gb.set@);
        lemma_codes_count(xb, xa, gb.set@, ga.set@);
        ga.list@.unique_seq_to_set();
        gb.list@.unique_seq_to_set();
        if xa.len() > 0 {
            assert(xa.to_set().contains(xa[0]));
        } else {
            assert(xa.to_set() =~= Set::<Seq<char>>::empty());
        }
        if xb.len() > 0 {
            assert(xb.to_set().contains(xb[0]));
        } else {
            assert(xb.to_set() =~= Set::<Seq<char>>::empty());
        }
        broadcast use vstd::seq_lib::seq_to_set_is_finite;

    }
    let na: usize = ga.list.len();
    let nb: usize = gb.list.len();
    if na == 0 || nb == 0 {
        return Similarity {
            shared: if same_chars(&ca, &cb) {
                1
            } else {
                0
            },
            smaller: 1,
        };
    }
    Similarity {
        shared: ga.shared_with(&gb),
        smaller: if na <= nb {
            na
        } else {
            nb
        },
    }
}

/// How many of the cleaned words were said.
pub open spec fn contained(clean: Seq<Seq<char>>, raw: Seq<Seq<char>>) -> nat
    decreases clean.len(),
{
    if clean.len() == 0 {
        0
    } else {
        contained(clean.drop_last(), raw) + (if raw.contains(clean.last()) {
            1nat
        } else {
            0nat
        })
    }
}

fn count_contained(clean: &Vec<String>, raw: &Vec<String>) -> (count: usize)
    ensures
        count == contained(texts(clean@), texts(raw@)),
        count <= clean@.len(),
{
    let ghost all = texts(clean@);
    let ghost said = texts(raw@);
    let mut count: usize = 0;
    let mut i: usize = 0;
    assert(all.take(0) =~= Seq::<Seq<char>>::empty());
    while i < clean.len()
        invariant
            i <= clean@.len(),
            all == texts(clean@),
            said == texts(raw@),
            count <= i,
            count == contained(all.take(i as int), said),
        decreases clean@.len() - i,
    {
        let mut found = false;
        let mut j: usize = 0;
        while j < raw.len() && !found
            invariant
                i < clean@.len(),
                j <= raw@.len(),
                said == texts(raw@),
                found ==> said.contains(clean@[i as int]@),
                !found ==> forall|k: int| 0 <= k < j ==> #[trigger] said[k] != clean@[i as int]@,
            decreases raw@.len() - j,
        {
            if same_text(raw[j].as_str(), clean[i].as_str()) {
                assert(said[j as int] == clean@[i as int]@);
                found = true;
            } else {
                assert(said[j as int] != clean@[i as int]@);
            }
            j += 1;
        }
        proof {
            assert(all.take(i + 1).drop_last() =~= all.take(i as int));
            assert(all.take(i + 1).last() == clean@[i as int]@);
        }
        if found {
            count += 1;
        }
        i += 1;
    }
    assert(all.take(all.len() as int) =~= all);
    count
}

/// Why the cleaned words are rejected, if they are. Cleaned text may be shorter
/// than a fifth, and longer than eight fifths, of what was said only when that
/// was short; and half its words or eleven in twenty of its letter triples must
/// have been said.
pub open spec fn objection(
    raw: Seq<Seq<char>>,
    clean: Seq<Seq<char>>,
    answers: bool,
    lowered: Seq<char>,
    s: Similarity,
) -> Option<Reason> {
    if clean.len() == 0 {
        if raw.len() == 0 {
            None
        } else {
            Some(Reason::EmptyOutput)
        }
    } else if answers && (raw.len() == 0 || clean[0] != raw[0]) {
        Some(Reason::AnswerPattern)
    } else if occurs_in("as an ai"@, lowered) || occurs_in("language model"@, lowered) {
        Some(Reason::AiSelfReference)
    } else if raw.len() == 0 {
        None
    } else if raw.len() >= 3 && clean.len() * 5 > raw.len() * 8 {
        Some(Reason::Expansion { clean: clean.len() as usize, raw: raw.len() as usize })
    } else if raw.len() >= 6 && clean.len() * 5 < raw.len() {
        Some(Reason::Shrink { clean: clean.len() as usize, raw: raw.len() as usize })
    } else if contained(clean, raw) * 2 < clean.len() && s.shared * 20 < s.smaller * 11 {
        Some(
            Reason::Divergence {
                contained: contained(clean, raw) as usize,
                clean: clean.len() as usize,
                shared: s.shared,
                smaller: s.smaller,
            },
        )
    } else {
        None
    }
}

/// The verdict on cleaned words, given what else is known of the two texts:
/// whether the cleaned one opens like an answer, its lower-case form, and how
/// similar the two are.
pub fn judge(
    raw_words: &Vec<String>,
    clean_words: &Vec<String>,
    answers: bool,
    lowered: &str,
    s: Similarity,
) -> (verdict: Verdict)
    ensures
        verdict == Verdict::of(
            objection(texts(raw_words@), texts(clean_words@), answers, lowered@, s),
        ),
{
    let ghost raw = texts(raw_words@);
    let ghost said = texts(clean_words@);
    let raw_count: usize = raw_words.len();
    let clean_count: usize = clean_words.len();
    if clean_count == 0 {
        return if raw_count == 0 {
            Verdict::ok()
        } else {
            Verdict::fail(Reason::EmptyOutput)
        };
    }
    // An answering model prepends words that are not in the dictation; a faithful
    // cleanup keeps the speaker's own opener, even if it is "Okay".
    let same_opener = raw_count > 0 && same_text(clean_words[0].as_str(), raw_words[0].as_str());
    if answers && !same_opener {
        return Verdict::fail(Reason::AnswerPattern);
    }
    let lowered = chars_of(lowered);
    if has_part(&lowered, &chars_of("as an ai")) || has_part(
        &lowered,
        &chars_of("language model"),
    ) {
        return Verdict::fail(Reason::AiSelfReference);
    }
    if raw_count == 0 {
        return Verdict::ok();
    }
    // Expansion is most dangerous on short dictations, so the upper bound kicks
    // in early; shrinking is legitimate, so the lower bound only applies to
    // longer ones.
    if raw_count >= 3 && clean_count as u128 * 5 > raw_count as u128 * 8 {
        return Verdict::fail(Reason::Expansion { clean: clean_count, raw: raw_count });
    }
    if raw_count >= 6 && clean_count as u128 * 5 < raw_count as u128 {
        return Verdict::fail(Reason::Shrink { clean: clean_count, raw: raw_count });
    }
    let contained = count_contained(clean_words, raw_words);
    // Only when both signals diverge: cleanup legitimately rewrites number words
    // and punctuation words, hurting each on its own.
    if (contained as u128 * 2) < clean_count as u128 && (s.shared as u128 * 20) < s.smaller as u128
        * 11 {
        return Verdict::fail(
            Reason::Divergence {
                contained,
                clean: clean_count,
                shared: s.shared,
                smaller: s.smaller,
            },
        );
    }
    Verdict::ok()
}

/// Whether a text opens like an answer.
pub open spec fn opens_like_an_answer(text: Seq<char>) -> bool {
    pattern_found(ANSWER_PATTERN@, text) == Some(true)
}

/// The verdict on a cleaned text.
pub open spec fn gated(raw: Seq<char>, cleaned: Seq<char>, verdict: Verdict) -> bool {
    exists|s: Similarity|
        #![trigger similarity(normal(raw), normal(cleaned), s)]
        similarity(normal(raw), normal(cleaned), s) && verdict == Verdict::of(
            objection(
                content(normal(raw)),
                content(normal(cleaned)),
                opens_like_an_answer(cleaned),
                in_lower_case(cleaned),
                s,
            ),
        )
}

/// Whether the cleaned text says what the raw one said.
pub fn validate(raw: &str, cleaned: &str) -> (verdict: Verdict)
    ensures
        gated(raw@, cleaned@, verdict),
{
    let raw_normal = normalize(raw);
    let clean_normal = normalize(cleaned);
    let raw_words = words_in(raw_normal.as_str());
    let clean_words = words_in(clean_normal.as_str());
    let answers = match is_match(ANSWER_PATTERN, cleaned) {
        Some(yes) => yes,
        None => false,
    };
    let s = trigram_similarity(raw_normal.as_str(), clean_normal.as_str());
    assert(similarity(normal(raw@), normal(cleaned@), s));
    judge(&raw_words, &clean_words, answers, to_lowercase(cleaned).as_str(), s)
}

/// A similarity is one number: there is one verdict.
pub proof fn similarities_are_unique(a: Seq<char>, b: Seq<char>, s: Similarity, t: Similarity)
    requires
        similarity(a, b, s),
        similarity(a, b, t),
    ensures
        s == t,
{
}

/// A similarity is a fraction: it lies between nothing and all, it does not
/// matter which text comes first, and a text is wholly similar to itself.
pub proof fn a_similarity_is_a_fraction(a: Seq<char>, b: Seq<char>, s: Similarity)
    requires
        similarity(a, b, s),
    ensures
        0 <= s.shared <= s.smaller,
        s.smaller > 0,
        similarity(b, a, s),
        a == b ==> s.shared == s.smaller,
{
    broadcast use vstd::seq_lib::seq_to_set_is_finite;

    let ga = grams(a).to_set();
    let gb = grams(b).to_set();
    if grams(a).len() > 0 && grams(b).len() > 0 {
        assert(ga.contains(grams(a)[0]));
        assert(gb.contains(grams(b)[0]));
        assert(ga.intersect(gb) =~= gb.intersect(ga));
        vstd::set_lib::lemma_len_intersect(ga, gb);
        vstd::set_lib::lemma_len_intersect(gb, ga);
        if ga.len() == 0 {
            ga.lemma_len0_is_empty();
        }
        if gb.len() == 0 {
            gb.lemma_len0_is_empty();
        }
        assert(ga.intersect(ga) =~= ga);
    }
}

/// Nothing but white space and punctuation is never inserted for real speech.
pub proof fn empty_output_for_speech_is_rejected(
    raw: Seq<Seq<char>>,
    answers: bool,
    lowered: Seq<char>,
    s: Similarity,
)
    requires
        raw.len() > 0,
    ensures
        objection(raw, Seq::empty(), answers, lowered, s) == Some(Reason::EmptyOutput),
{
}

/// A dictation that keeps its own opener is never taken for an answer.
pub proof fn an_own_opener_is_no_answer(
    raw: Seq<Seq<char>>,
    clean: Seq<Seq<char>>,
    answers: bool,
    lowered: Seq<char>,
    s: Similarity,
)
    requires
        raw.len() > 0,
        clean.len() > 0,
        clean[0] == raw[0],
    ensures
        objection(raw, clean, answers, lowered, s) != Some(Reason::AnswerPattern),
{
}

/// Of three words or more, an accepted text is at most eight fifths as long.
pub proof fn accepted_text_does_not_balloon(
    raw: Seq<Seq<char>>,
    clean: Seq<Seq<char>>,
    answers: bool,
    lowered: Seq<char>,
    s: Similarity,
)
    requires
        raw.len() >= 3,
        objection(raw, clean, answers, lowered, s) is None,
    ensures
        clean.len() * 5 <= raw.len() * 8,
{
}

proof fn lemma_no_words_left(s: Seq<char>, list: Seq<(Seq<char>, Seq<char>)>, k: int)
    requires
        spelled_numbers(list),
        0 <= k < list.len(),
    ensures
        free_of(written_all(s, list), list[k].0, false),
    decreases list.len(),
{
    let rest = list.drop_last();
    let (word, digits) = list.last();
    assert(list[list.len() - 1] == list.last());
    assert(short_word(list[k].0));
    assert forall|i: int| 0 <= i < rest.len() implies short_word((#[trigger] rest[i]).0)
        && all_digits(rest[i].1) by {
        assert(rest[i] == list[i]);
    }
    if k < rest.len() {
        assert(rest[k] == list[k]);
        lemma_no_words_left(s, rest, k);
    }
    digits_leave_no_word(written_all(s, rest), word, digits, false, list[k].0);
}

proof fn lemma_nothing_to_write(s: Seq<char>, list: Seq<(Seq<char>, Seq<char>)>)
    requires
        forall|k: int| 0 <= k < list.len() ==> free_of(s, (#[trigger] list[k]).0, false),
    ensures
        written_all(s, list) == s,
    decreases list.len(),
{
    if list.len() > 0 {
        let rest = list.drop_last();
        assert forall|k: int| 0 <= k < rest.len() implies free_of(
            s,
            (#[trigger] rest[k]).0,
            false,
        ) by {
            assert(rest[k] == list[k]);
        }
        lemma_nothing_to_write(s, rest);
        assert(list[list.len() - 1] == list.last());
        only_lone_words_are_replaced(s, list.last().0, list.last().1, false);
    }
}

/// Numbers are only written where they stand as whole words: a text without such
/// a word is put in lower case and that is all.
pub proof fn only_whole_words_become_digits(text: Seq<char>)
    requires
        forall|k: int|
            0 <= k < number_words().len() ==> free_of(
                in_lower_case(text),
                (#[trigger] number_words()[k]).0,
                false,
            ),
    ensures
        normal(text) == in_lower_case(text),
{
    lemma_nothing_to_write(in_lower_case(text), number_words());
}

/// In a normalized text no spoken number stands as a whole word, so there is
/// nothing left to write.
pub proof fn no_spoken_number_is_left(text: Seq<char>)
    ensures
        forall|k: int|
            0 <= k < number_words().len() ==> free_of(
                normal(text),
                (#[trigger] number_words()[k]).0,
                false,
            ),
        written_all(normal(text), number_words()) == normal(text),
{
    lemma_number_words();
    assert forall|k: int| 0 <= k < number_words().len() implies free_of(
        normal(text),
        (#[trigger] number_words()[k]).0,
        false,
    ) by {
        lemma_no_words_left(in_lower_case(text), number_words(), k);
    }
    lemma_nothing_to_write(normal(text), number_words());
}

/// Whether a text is in ASCII and has no upper-case letter.
spec fn low(s: Seq<char>) -> bool {
    forall|i: int|
        0 <= i < s.len() ==> (#[trigger] s[i] as int) < 128 && !('A' <= s[i] && s[i] <= 'Z')
}

proof fn lemma_low_replaced(s: Seq<char>, word: Seq<char>, digits: Seq<char>, inside: bool)
    requires
        low(s),
        low(digits),
    ensures
        low(word_replaced(s, word, digits, inside)),
    decreases s.len(),
{
    if s.len() > 0 && word.len() > 0 {
        if !inside && starts_with_word(s, word) {
            let k = word.len() as int;
            assert(low(s.skip(k)));
            lemma_low_replaced(s.skip(k), word, digits, true);
        } else {
            assert(low(s.skip(1)));
            lemma_low_replaced(s.skip(1), word, digits, word_char(s[0]));
        }
    }
}

proof fn lemma_low_written(s: Seq<char>, list: Seq<(Seq<char>, Seq<char>)>)
    requires
        low(s),
        spelled_numbers(list),
    ensures
        low(written_all(s, list)),
    decreases list.len(),
{
    if list.len() > 0 {
        let rest = list.drop_last();
        assert forall|i: int| 0 <= i < rest.len() implies short_word((#[trigger] rest[i]).0)
            && all_digits(rest[i].1) by {
            assert(rest[i] == list[i]);
        }
        lemma_low_written(s, rest);
        assert(list[list.len() - 1] == list.last());
        assert(all_digits(list.last().1));
        lemma_low_replaced(written_all(s, rest), list.last().0, list.last().1, false);
    }
}

proof fn lemma_low_stays(s: Seq<char>)
    requires
        low(s),
    ensures
        in_lower_case(s) == s,
{
    assert(plain(s));
    assert(ascii_lowered(s) =~= s);
}

/// Normalizing twice changes nothing more, and the case of a text does not
/// matter: in ASCII, and wherever a text in lower case stays as it is when it is
/// put in lower case.
pub proof fn normalizing_settles(text: Seq<char>)
    ensures
        plain(text) || in_lower_case(normal(text)) == normal(text) ==> normal(normal(text))
            == normal(text),
        plain(text) || in_lower_case(in_lower_case(text)) == in_lower_case(text) ==> normal(
            in_lower_case(text),
        ) == normal(text),
{
    no_spoken_number_is_left(text);
    if plain(text) {
        let lower = in_lower_case(text);
        assert(low(lower)) by {
            assert forall|i: int| 0 <= i < lower.len() implies (#[trigger] lower[i] as int) < 128
                && !('A' <= lower[i] && lower[i] <= 'Z') by {
                assert(lower[i] == ascii_lower(text[i]));
                assert((text[i] as int) < 128);
            }
        }
        lemma_low_stays(lower);
        lemma_number_words();
        lemma_low_written(lower, number_words());
        lemma_low_stays(normal(text));
    }
}

/// Whether a text has an ASCII letter or digit.
spec fn speaks(s: Seq<char>) -> bool {
    exists|i: int| 0 <= i < s.len() && ascii_alphanumeric(#[trigger] s[i])
}

proof fn lemma_speaks_replaced(s: Seq<char>, word: Seq<char>, digits: Seq<char>, inside: bool)
    requires
        speaks(s),
        all_digits(digits),
    ensures
        speaks(word_replaced(s, word, digits, inside)),
    decreases s.len(),
{
    let out = word_replaced(s, word, digits, inside);
    if word.len() > 0 {
        if !inside && starts_with_word(s, word) {
            assert(out[0] == digits[0]);
        } else {
            let rest = s.skip(1);
            let i = choose|i: int| 0 <= i < s.len() && ascii_alphanumeric(#[trigger] s[i]);
            assert(out[0] == s[0]);
            if i > 0 {
                assert(rest[i - 1] == s[i]);
                lemma_speaks_replaced(rest, word, digits, word_char(s[0]));
                let after = word_replaced(rest, word, digits, word_char(s[0]));
                let j = choose|j: int|
                    0 <= j < after.len() && ascii_alphanumeric(#[trigger] after[j]);
                assert(out[j + 1] == after[j]);
            }
        }
    }
}

proof fn lemma_speaks_written(s: Seq<char>, list: Seq<(Seq<char>, Seq<char>)>)
    requires
        speaks(s),
        spelled_numbers(list),
    ensures
        speaks(written_all(s, list)),
    decreases list.len(),
{
    if list.len() > 0 {
        let rest = list.drop_last();
        assert forall|i: int| 0 <= i < rest.len() implies short_word((#[trigger] rest[i]).0)
            && all_digits(rest[i].1) by {
            assert(rest[i] == list[i]);
        }
        lemma_speaks_written(s, rest);
        assert(list[list.len() - 1] == list.last());
        lemma_speaks_replaced(written_all(s, rest), list.last().0, list.last().1, false);
    }
}

proof fn lemma_speech_has_words(s: Seq<char>, i: int)
    requires
        0 <= i < s.len(),
        letter_or_digit(s[i]),
    ensures
        content(s).len() > 0,
    decreases s.len(),
{
    let rest = s.drop_last();
    if i < rest.len() {
        lemma_speech_has_words(rest, i);
    } else if s.len() > 1 && letter_or_digit(s[s.len() - 2]) {
        lemma_speech_has_words(rest, s.len() - 2);
    }
}

proof fn lemma_all_contained(clean: Seq<Seq<char>>, raw: Seq<Seq<char>>)
    requires
        forall|i: int| 0 <= i < clean.len() ==> raw.contains(#[trigger] clean[i]),
    ensures
        contained(clean, raw) == clean.len(),
    decreases clean.len(),
{
    if clean.len() > 0 {
        assert(clean[clean.len() - 1] == clean.last());
        assert forall|i: int| 0 <= i < clean.drop_last().len() implies raw.contains(
            #[trigger] clean.drop_last()[i],
        ) by {
            assert(clean.drop_last()[i] == clean[i]);
        }
        lemma_all_contained(clean.drop_last(), raw);
    }
}

/// A text that speaks of itself as an AI or a language model.
pub open spec fn names_an_ai(text: Seq<char>) -> bool {
    occurs_in("as an ai"@, in_lower_case(text)) || occurs_in(
        "language model"@,
        in_lower_case(text),
    )
}

/// A transcript that comes back unchanged is accepted exactly if it names neither
/// an AI nor a language model: it is never rejected for its opener, its length or
/// its content.
pub proof fn an_unchanged_transcript_is_accepted(text: Seq<char>, verdict: Verdict)
    requires
        gated(text, text, verdict),
    ensures
        verdict.accepted == !names_an_ai(text),
        !verdict.accepted ==> verdict.reason == Some(Reason::AiSelfReference),
{
    let lower = in_lower_case(text);
    let words = content(normal(text));
    assert forall|i: int| 0 <= i < words.len() implies words.contains(#[trigger] words[i]) by {}
    lemma_all_contained(words, words);
    if names_an_ai(text) {
        reveal_strlit("as an ai");
        reveal_strlit("language model");
        let part = if occurs_in("as an ai"@, lower) {
            "as an ai"@
        } else {
            "language model"@
        };
        let at = choose|i: int| stands_at(lower, part, i);
        assert(lower.subrange(at, at + part.len())[0] == lower[at]);
        assert(ascii_alphanumeric(lower[at]));
        lemma_number_words();
        lemma_speaks_written(lower, number_words());
        let i = choose|i: int|
            0 <= i < normal(text).len() && ascii_alphanumeric(#[trigger] normal(text)[i]);
        lemma_speech_has_words(normal(text), i);
    }
}

/// A cleaned text is accepted exactly if it says something where something was
/// said, does not open like an answer that the speaker did not give, names no AI,
/// is not blown up or cut down beyond measure, and shares either half its words or
/// eleven twentieths of its letter triples with what was said.
pub proof fn what_the_gate_lets_through(
    raw: Seq<Seq<char>>,
    clean: Seq<Seq<char>>,
    answers: bool,
    lowered: Seq<char>,
    s: Similarity,
)
    requires
        raw.len() > 0,
    ensures
        objection(raw, clean, answers, lowered, s) is None <==> {
            &&& clean.len() > 0
            &&& answers ==> clean[0] == raw[0]
            &&& !occurs_in("as an ai"@, lowered)
            &&& !occurs_in("language model"@, lowered)
            &&& raw.len() >= 3 ==> 10 * clean.len() <= 16 * raw.len()
            &&& raw.len() >= 6 ==> 10 * clean.len() >= 2 * raw.len()
            &&& contained(clean, raw) * 100 >= clean.len() * 50 || s.shared * 100 >= s.smaller * 55
        },
{
}

/// Each rejection has its reason, and the first that holds is the one given.
pub proof fn every_rejection_has_its_reason(
    raw: Seq<Seq<char>>,
    clean: Seq<Seq<char>>,
    answers: bool,
    lowered: Seq<char>,
    s: Similarity,
)
    ensures
        ({
            let why = objection(raw, clean, answers, lowered, s);
            let names = occurs_in("as an ai"@, lowered) || occurs_in("language model"@, lowered);
            let foreign = answers && (raw.len() == 0 || clean[0] != raw[0]);
            &&& clean.len() == 0 ==> (why is None <==> raw.len() == 0)
            &&& why == Some(Reason::EmptyOutput) <==> clean.len() == 0 && raw.len() > 0
            &&& why == Some(Reason::AnswerPattern) <==> clean.len() > 0 && foreign
            &&& why == Some(Reason::AiSelfReference) <==> clean.len() > 0 && !foreign && names
            &&& (why matches Some(reason) && reason is Expansion) ==> clean.len() * 5 > raw.len()
                * 8 && raw.len() >= 3
            &&& (why matches Some(reason) && reason is Shrink) ==> clean.len() * 5 < raw.len()
                && raw.len() >= 6
            &&& (why matches Some(reason) && reason is Divergence) ==> contained(clean, raw) * 2
                < clean.len() && s.shared * 20 < s.smaller * 11
            &&& raw.len() == 0 && clean.len() > 0 && !foreign && !names ==> why is None
        }),
{
}

/// A verdict accepts exactly if it gives no reason, and it is that of the words of
/// the two texts.
pub proof fn a_verdict_gives_its_reason(
    raw: Vec<String>,
    clean: Vec<String>,
    answers: bool,
    lowered: &str,
    s: Similarity,
    verdict: Verdict,
)
    requires
        call_ensures(judge, (&raw, &clean, answers, lowered, s), verdict),
    ensures
        verdict.accepted <==> verdict.reason is None,
        clean@.len() == 0 && raw@.len() > 0 ==> verdict.reason == Some(Reason::EmptyOutput),
        clean@.len() == 0 && raw@.len() == 0 ==> verdict.accepted,
        verdict.reason == objection(texts(raw@), texts(clean@), answers, lowered@, s),
{
    assert(texts(raw@).len() == raw@.len());
    assert(texts(clean@).len() == clean@.len());
}

/// A word of the cleaned text counts if it was said, each time it is written.
pub proof fn words_are_counted_one_by_one(
    clean: Seq<Seq<char>>,
    raw: Seq<Seq<char>>,
    word: Seq<char>,
)
    ensures
        contained(clean.push(word), raw) == contained(clean, raw) + (if raw.contains(word) {
            1nat
        } else {
            0nat
        }),
        contained(Seq::empty(), raw) == 0,
{
    assert(clean.push(word).drop_last() =~= clean);
}

/// The letter triples of a text are taken from every place of it, white space
/// aside.
pub proof fn triples_are_taken_from_every_place(s: Seq<char>, i: int)
    requires
        forall|k: int| 0 <= k < s.len() ==> !white_space(#[trigger] s[k]),
        0 <= i,
        i + 3 <= s.len(),
    ensures
        grams(s).len() == s.len() - 2,
        grams(s)[i] == seq![s[i], s[i + 1], s[i + 2]],
{
    lemma_nothing_squeezed(s);
    assert(s.subrange(i, i + 3) =~= seq![s[i], s[i + 1], s[i + 2]]);
}

proof fn lemma_nothing_squeezed(s: Seq<char>)
    requires
        forall|k: int| 0 <= k < s.len() ==> !white_space(#[trigger] s[k]),
    ensures
        squeezed(s) == s,
    decreases s.len(),
{
    if s.len() > 0 {
        let less = s.drop_last();
        assert forall|k: int| 0 <= k < less.len() implies !white_space(#[trigger] less[k]) by {
            assert(less[k] == s[k]);
        }
        lemma_nothing_squeezed(less);
        assert(less.push(s.last()) =~= s);
        assert(s[s.len() - 1] == s.last());
    } else {
        assert(squeezed(s) =~= s);
    }
}

/// White space does not count in the triples.
pub proof fn white_space_is_no_letter(s: Seq<char>, c: char)
    requires
        white_space(c),
    ensures
        grams(s.push(c)) == grams(s),
{
    assert(s.push(c).drop_last() =~= s);
    assert(squeezed(s.push(c)) == squeezed(s));
}

/// A text with nothing around it is only trimmed.
pub proof fn a_bare_text_is_only_trimmed(text: Seq<char>)
    requires
        ({
            let t = trim(text);
            &&& !"```"@.is_prefix_of(t)
            &&& !"CLEAN:"@.is_prefix_of(t)
            &&& !"Clean:"@.is_prefix_of(t)
            &&& !"Transcript:"@.is_prefix_of(t)
            &&& !"TRANSCRIPT:"@.is_prefix_of(t)
            &&& t.len() > 0 ==> t[0] != '"'
        }),
    ensures
        bare_text(text) == trim(text),
{
}

/// Quotes around a text come off, both or none.
pub proof fn quotes_come_off_in_pairs(inner: Seq<char>, s: Seq<char>)
    ensures
        unquoted(seq!['"'] + inner + seq!['"']) == inner,
        s.len() <= 1 || s[0] != '"' || s.last() != '"' ==> unquoted(s) == s,
{
    let whole = seq!['"'] + inner + seq!['"'];
    assert(whole.subrange(1, whole.len() - 1) =~= inner);
}

/// A label in front comes off with the white space behind it, and a text without
/// it stays.
pub proof fn a_label_comes_off(label: Seq<char>, rest: Seq<char>, s: Seq<char>)
    ensures
        unlabelled(label + rest, label) == trim(rest),
        !label.is_prefix_of(s) ==> unlabelled(s, label) == s,
{
    assert(label.is_prefix_of(label + rest)) by {
        assert((label + rest).take(label.len() as int) =~= label);
    }
    assert((label + rest).skip(label.len() as int) =~= rest);
}

/// The fences of a code block come off wherever they stand, and what is between
/// them stays.
pub proof fn fences_come_off(s: Seq<char>, rest: Seq<char>, part: Seq<char>)
    requires
        part.len() > 0,
    ensures
        without(part + rest, part) == without(rest, part),
        s.len() > 0 && !part.is_prefix_of(s) ==> without(s, part) == seq![s[0]] + without(
            s.skip(1),
            part,
        ),
        without(Seq::empty(), part) == Seq::<char>::empty(),
{
    assert(part.is_prefix_of(part + rest)) by {
        assert((part + rest).take(part.len() as int) =~= part);
    }
    assert((part + rest).skip(part.len() as int) =~= rest);
}

/// Each spoken number is written as the number it is.
pub proof fn a_spoken_number_is_written_as_itself(i: int)
    requires
        0 <= i <= 12,
    ensures
        number_words().len() == 18,
        number_words()[i].1 == decimal(i as nat),
        number_words()[0].0 == "zero"@ && number_words()[1].0 == "one"@ && number_words()[2].0
            == "two"@ && number_words()[3].0 == "three"@ && number_words()[4].0 == "four"@
            && number_words()[5].0 == "five"@ && number_words()[6].0 == "six"@
            && number_words()[7].0 == "seven"@ && number_words()[8].0 == "eight"@
            && number_words()[9].0 == "nine"@ && number_words()[10].0 == "ten"@
            && number_words()[11].0 == "eleven"@ && number_words()[12].0 == "twelve"@,
        number_words()[13] == ("twenty"@, decimal(20)),
        number_words()[14] == ("thirty"@, decimal(30)),
        number_words()[15] == ("forty"@, decimal(40)),
        number_words()[16] == ("fifty"@, decimal(50)),
        number_words()[17] == ("hundred"@, decimal(100)),
{
    reveal_strlit("0");
    reveal_strlit("1");
    reveal_strlit("2");
    reveal_strlit("3");
    reveal_strlit("4");
    reveal_strlit("5");
    reveal_strlit("6");
    reveal_strlit("7");
    reveal_strlit("8");
    reveal_strlit("9");
    reveal_strlit("10");
    reveal_strlit("11");
    reveal_strlit("12");
    reveal_strlit("20");
    reveal_strlit("30");
    reveal_strlit("40");
    reveal_strlit("50");
    reveal_strlit("100");
    reveal_with_fuel(decimal, 4);
    assert(decimal(0) =~= "0"@ && decimal(1) =~= "1"@ && decimal(2) =~= "2"@ && decimal(3) =~= "3"@);
    assert(decimal(4) =~= "4"@ && decimal(5) =~= "5"@ && decimal(6) =~= "6"@ && decimal(7) =~= "7"@);
    assert(decimal(8) =~= "8"@ && decimal(9) =~= "9"@);
    assert(decimal(10) =~= "10"@ && decimal(11) =~= "11"@ && decimal(12) =~= "12"@);
    assert(decimal(20) =~= "20"@ && decimal(30) =~= "30"@ && decimal(40) =~= "40"@);
    assert(decimal(50) =~= "50"@);
    assert(decimal(100) =~= "100"@);
}

/// A number word that stands alone between two others is written as digits, and
/// the words around it stay.
pub proof fn a_lone_number_is_written(word: Seq<char>, digits: Seq<char>, rest: Seq<char>)
    requires
        short_word(word),
        rest.len() > 0 ==> !word_char(rest[0]),
    ensures
        written(word + rest, word, digits) == digits + word_replaced(rest, word, digits, true),
{
    let s = word + rest;
    assert(s.take(word.len() as int) =~= word);
    assert(word.is_prefix_of(s));
    if rest.len() > 0 {
        assert(s[word.len() as int] == rest[0]);
    }
    assert(s.skip(word.len() as int) =~= rest);
}

/// Each of the labels comes off.
pub proof fn every_label_comes_off(rest: Seq<char>)
    requires
        ({
            let t = trim(rest);
            &&& !"CLEAN:"@.is_prefix_of(t)
            &&& !"Clean:"@.is_prefix_of(t)
            &&& !"Transcript:"@.is_prefix_of(t)
            &&& !"TRANSCRIPT:"@.is_prefix_of(t)
            &&& t.len() > 0 ==> t[0] != '"'
        }),
    ensures
        unwrapped("CLEAN:"@ + rest) == trim(rest),
        unwrapped("Clean:"@ + rest) == trim(rest),
        unwrapped("Transcript:"@ + rest) == trim(rest),
        unwrapped("TRANSCRIPT:"@ + rest) == trim(rest),
{
    reveal_strlit("CLEAN:");
    reveal_strlit("Clean:");
    reveal_strlit("Transcript:");
    reveal_strlit("TRANSCRIPT:");
    let (a, b, c, d) = ("CLEAN:"@, "Clean:"@, "Transcript:"@, "TRANSCRIPT:"@);
    assert(a[0] == 'C' && a[1] == 'L' && b[0] == 'C' && b[1] == 'l');
    assert(c[0] == 'T' && c[1] == 'r' && d[0] == 'T' && d[1] == 'R');
    a_label_comes_off(a, rest, b + rest);
    a_label_comes_off(b, rest, a + rest);
    a_label_comes_off(c, rest, d + rest);
    a_label_comes_off(d, rest, c + rest);
    lemma_other_start(a, b + rest);
    lemma_other_start(a, c + rest);
    lemma_other_start(b, c + rest);
    lemma_other_start(a, d + rest);
    lemma_other_start(b, d + rest);
    lemma_other_start(c, d + rest);
}

proof fn lemma_other_start(label: Seq<char>, s: Seq<char>)
    requires
        label.len() >= 2,
        s.len() >= 2,
        label[0] != s[0] || label[1] != s[1],
    ensures
        !label.is_prefix_of(s),
        unlabelled(s, label) == s,
{
    if label.is_prefix_of(s) {
        assert(label[0] == s.take(label.len() as int)[0]);
        assert(label[1] == s.take(label.len() as int)[1]);
    }
}

/// What is between the fences of a code block is the text.
pub proof fn the_text_between_the_fences_is_kept(s: Seq<char>, inner: Seq<char>)
    requires
        "```"@.is_prefix_of(s),
        !inner.contains('`'),
    ensures
        stripped(s, Some(inner)) == unwrapped(trim(inner)),
{
    reveal_strlit("```");
    lemma_no_fence(inner);
}

proof fn lemma_no_fence(s: Seq<char>)
    requires
        !s.contains('`'),
    ensures
        without(s, "```"@) == s,
    decreases s.len(),
{
    reveal_strlit("```");
    if s.len() > 0 {
        let part = "```"@;
        if part.is_prefix_of(s) {
            assert(part[0] == s.take(3)[0]);
            assert(s.contains(s[0]));
        }
        let rest = s.skip(1);
        assert(!rest.contains('`')) by {
            if rest.contains('`') {
                let i = choose|i: int| 0 <= i < rest.len() && rest[i] == '`';
                assert(s[i + 1] == '`');
            }
        }
        lemma_no_fence(rest);
        assert(seq![s[0]] + rest =~= s);
    }
}

/// A word is a run of letters and digits, parted from the next by anything else.
pub proof fn a_word_is_a_run_of_letters(s: Seq<char>, gap: char, word: Seq<char>)
    requires
        !letter_or_digit(gap),
        word.len() > 0,
        forall|i: int| 0 <= i < word.len() ==> letter_or_digit(#[trigger] word[i]),
    ensures
        content(word) == seq![word],
        content(s.push(gap)) == content(s),
        content(s.push(gap) + word) == content(s).push(word),
{
    let inside = |c: char| letter_or_digit(c);
    let none = Seq::<char>::empty();
    a_run_behind_a_gap_is_one_more(none, word, inside);
    assert(none + word =~= word);
    assert(content(word) =~= seq![word]);
    assert(s.push(gap).drop_last() =~= s);
    a_run_behind_a_gap_is_one_more(s.push(gap), word, inside);
}

/// Texts that share no letter triple have no similarity.
pub proof fn nothing_shared_is_no_similarity(a: Seq<char>, b: Seq<char>, s: Similarity)
    requires
        similarity(a, b, s),
        grams(a).len() > 0,
        grams(b).len() > 0,
        forall|i: int| 0 <= i < grams(a).len() ==> !grams(b).contains(#[trigger] grams(a)[i]),
    ensures
        s.shared == 0,
{
    let ga = grams(a).to_set();
    let gb = grams(b).to_set();
    assert forall|g: Seq<char>| !ga.intersect(gb).contains(g) by {
        if ga.contains(g) && gb.contains(g) {
            let i = choose|i: int| 0 <= i < grams(a).len() && grams(a)[i] == g;
            assert(grams(b).contains(grams(a)[i]));
        }
    }
    assert(ga.intersect(gb) =~= Set::<Seq<char>>::empty());
}

/// What was said is compared by its words, its case and its spelling of numbers
/// aside: two ways of saying the same get the same verdict.
pub proof fn case_and_numbers_do_not_matter(
    raw: Seq<char>,
    other: Seq<char>,
    cleaned: Seq<char>,
    verdict: Verdict,
)
    requires
        normal(raw) == normal(other),
    ensures
        gated(raw, cleaned, verdict) <==> gated(other, cleaned, verdict),
{
}

/// There is one verdict on a text: it accepts exactly if it gives no reason.
pub proof fn there_is_one_verdict(
    raw: Seq<char>,
    cleaned: Seq<char>,
    a: Verdict,
    b: Verdict,
)
    requires
        gated(raw, cleaned, a),
        gated(raw, cleaned, b),
    ensures
        a == b,
        a.accepted <==> a.reason is None,
{
    let s = choose|s: Similarity| #[trigger]
        similarity(normal(raw), normal(cleaned), s) && a == Verdict::of(
            objection(
                content(normal(raw)),
                content(normal(cleaned)),
                opens_like_an_answer(cleaned),
                in_lower_case(cleaned),
                s,
            ),
        );
    let t = choose|t: Similarity| #[trigger]
        similarity(normal(raw), normal(cleaned), t) && b == Verdict::of(
            objection(
                content(normal(raw)),
                content(normal(cleaned)),
                opens_like_an_answer(cleaned),
                in_lower_case(cleaned),
                t,
            ),
        );
    similarities_are_unique(normal(raw), normal(cleaned), s, t);
}

} // verus!
