//! The dictionary's guarantee: explicit wrong-to-right rules, enforced after the
//! model. Longest match first, on word boundaries, keeping the case of what was
//! said.

use vstd::prelude::*;

use crate::pattern::{find_literal, literal_found, well_placed};
use crate::rank::{arranged, ints, order_of, ordered, picked};
use crate::text::{
    byte_at,
    char_index,
    char_index_of,
    chars_of,
    push_all,
    same_text,
    slice_of,
    string_of,
};
use crate::unicode::{
    alphanumeric,
    is_alphanumeric,
    is_uppercase,
    lowercase,
    to_lowercase,
    to_uppercase,
    upper,
    uppercase,
};

verus! {

#[derive(Debug, PartialEq, Eq)]
pub struct Rule {
    pub wrong: String,
    pub right: String,
}

pub struct RuleView {
    pub wrong: Seq<char>,
    pub right: Seq<char>,
}

impl View for Rule {
    type V = RuleView;

    open spec fn view(&self) -> RuleView {
        RuleView { wrong: self.wrong@, right: self.right@ }
    }
}

impl Rule {
    pub fn new(wrong: &str, right: &str) -> (rule: Self)
        ensures
            rule@ == (RuleView { wrong: wrong@, right: right@ }),
    {
        Rule { wrong: wrong.to_owned(), right: right.to_owned() }
    }
}

pub open spec fn word_char(c: char) -> bool {
    alphanumeric(c) || c == '_'
}

fn is_word_char(c: char) -> (yes: bool)
    ensures
        yes == word_char(c),
{
    is_alphanumeric(c) || c == '_'
}

/// Whether the characters from `from` to `to` are not glued to a word character
/// on either side.
pub open spec fn standalone(text: Seq<char>, from: int, to: int) -> bool {
    &&& from > 0 ==> !word_char(text[from - 1])
    &&& to < text.len() ==> !word_char(text[to])
}

fn is_standalone(text: &Vec<char>, from: usize, to: usize) -> (yes: bool)
    requires
        from <= to <= text@.len(),
    ensures
        yes == standalone(text@, from as int, to as int),
{
    (from == 0 || !is_word_char(text[from - 1])) && (to == text.len() || !is_word_char(text[to]))
}

pub open spec fn has_upper(s: Seq<char>) -> bool {
    exists|i: int| 0 <= i < s.len() && upper(#[trigger] s[i])
}

fn any_uppercase(s: &Vec<char>) -> (yes: bool)
    ensures
        yes == has_upper(s@),
{
    let mut i: usize = 0;
    while i < s.len()
        invariant
            i <= s@.len(),
            forall|k: int| 0 <= k < i ==> !upper(#[trigger] s@[k]),
        decreases s@.len() - i,
    {
        if is_uppercase(s[i]) {
            assert(upper(s@[i as int]));
            return true;
        }
        i += 1;
    }
    false
}

/// A rule that carries its own casing: one side has upper case, or it changes
/// nothing but case.
pub open spec fn explicitly_cased(replacement: Seq<char>, wrong: Seq<char>) -> bool {
    ||| has_upper(replacement)
    ||| has_upper(wrong)
    ||| wrong.len() > 0 && lowercase(wrong) == lowercase(replacement)
}

/// The replacement in the case of what it replaces: all capitals stay all
/// capitals, a capital stays first, unless the rule carries its own casing.
pub open spec fn cased(original: Seq<char>, replacement: Seq<char>, wrong: Seq<char>) -> Seq<char> {
    if explicitly_cased(replacement, wrong) {
        replacement
    } else if original == uppercase(original) && original.len() > 1 {
        uppercase(replacement)
    } else if original.len() > 0 && upper(original[0]) {
        if replacement.len() == 0 {
            Seq::empty()
        } else {
            uppercase(replacement.take(1)) + replacement.skip(1)
        }
    } else {
        replacement
    }
}

pub fn propagate_case(original: &str, replacement: &str, wrong: &str) -> (text: String)
    ensures
        text@ == cased(original@, replacement@, wrong@),
{
    let said = chars_of(original);
    let right = chars_of(replacement);
    let rule = chars_of(wrong);
    // "NPM" to "npm" is a deliberate lower-case rule: capitals in what was said
    // must not undo it.
    if any_uppercase(&right) || any_uppercase(&rule) || (rule.len() > 0 && same_text(
        to_lowercase(wrong).as_str(),
        to_lowercase(replacement).as_str(),
    )) {
        return replacement.to_owned();
    }
    if same_text(original, to_uppercase(original).as_str()) && said.len() > 1 {
        return to_uppercase(replacement);
    }
    if said.len() > 0 && is_uppercase(said[0]) {
        if right.len() == 0 {
            return String::new();
        }
        let first = slice_of(&right, 0, 1);
        let rest = slice_of(&right, 1, right.len());
        assert(first@ =~= replacement@.take(1));
        assert(rest@ =~= replacement@.skip(1));
        let mut text = to_uppercase(string_of(&first).as_str());
        text.append(string_of(&rest).as_str());
        return text;
    }
    replacement.to_owned()
}

/// Byte ranges as character ranges.
pub open spec fn char_spans(text: Seq<char>, spans: Seq<(usize, usize)>) -> Seq<(int, int)> {
    spans.map_values(
        |s: (usize, usize)| (char_index(text, s.0 as int), char_index(text, s.1 as int)),
    )
}

/// What stands in place of the characters from `from` to `to`.
pub open spec fn fixed(text: Seq<char>, rule: RuleView, from: int, to: int) -> Seq<char> {
    let said = text.subrange(from, to);
    if standalone(text, from, to) {
        cased(said, rule.right, rule.wrong)
    } else {
        said
    }
}

/// The text from `from` on with each of `spans` fixed.
pub open spec fn patched(
    text: Seq<char>,
    rule: RuleView,
    spans: Seq<(int, int)>,
    from: int,
) -> Seq<char>
    decreases spans.len(),
{
    if spans.len() == 0 {
        text.skip(from)
    } else {
        text.subrange(from, spans[0].0) + fixed(text, rule, spans[0].0, spans[0].1) + patched(
            text,
            rule,
            spans.skip(1),
            spans[0].1,
        )
    }
}

/// Character ranges of a text, apart and in order.
pub open spec fn in_order(spans: Seq<(int, int)>, len: int) -> bool {
    &&& forall|k: int|
        0 <= k < spans.len() ==> 0 <= (#[trigger] spans[k]).0 <= spans[k].1 <= len
    &&& forall|k: int, l: int|
        0 <= k < l < spans.len() ==> (#[trigger] spans[k]).1 <= (#[trigger] spans[l]).0
}

pub open spec fn int_spans(spans: Seq<(usize, usize)>) -> Seq<(int, int)> {
    spans.map_values(|s: (usize, usize)| (s.0 as int, s.1 as int))
}

proof fn lemma_spans_in_order(text: Seq<char>, spans: Seq<(usize, usize)>)
    requires
        well_placed(text, spans),
    ensures
        in_order(char_spans(text, spans), text.len() as int),
{
    let all = char_spans(text, spans);
    assert forall|k: int| 0 <= k < all.len() implies 0 <= (#[trigger] all[k]).0 <= all[k].1
        <= text.len() by {
        let s = spans[k];
        let from = char_index(text, s.0 as int);
        let to = char_index(text, s.1 as int);
        assert(byte_at(text, from) == s.0 && byte_at(text, to) == s.1);
        if to < from {
            crate::text::lemma_bytes_grow(text, to, from);
        }
    }
    assert forall|k: int, l: int| 0 <= k < l < all.len() implies (#[trigger] all[k]).1 <= (
    #[trigger] all[l]).0 by {
        let end = char_index(text, spans[k].1 as int);
        let start = char_index(text, spans[l].0 as int);
        assert(byte_at(text, end) == spans[k].1 && byte_at(text, start) == spans[l].0);
        if start < end {
            crate::text::lemma_bytes_grow(text, start, end);
        }
    }
}

fn spans_in_chars(chars: &Vec<char>, spans: &Vec<(usize, usize)>) -> (out: Vec<(usize, usize)>)
    requires
        well_placed(chars@, spans@),
    ensures
        int_spans(out@) == char_spans(chars@, spans@),
        in_order(int_spans(out@), chars@.len() as int),
{
    let mut out: Vec<(usize, usize)> = Vec::new();
    let mut i: usize = 0;
    while i < spans.len()
        invariant
            i <= spans@.len(),
            well_placed(chars@, spans@),
            out@.len() == i,
            forall|k: int|
                0 <= k < i ==> (#[trigger] out@[k]).0 == char_index(chars@, spans@[k].0 as int)
                    && out@[k].1 == char_index(chars@, spans@[k].1 as int),
        decreases spans@.len() - i,
    {
        let span = spans[i];
        assert(span == spans@[i as int]);
        let from: usize = match char_index_of(chars, span.0) {
            Some(at) => at,
            None => 0,
        };
        let to: usize = match char_index_of(chars, span.1) {
            Some(at) => at,
            None => 0,
        };
        out.push((from, to));
        i += 1;
    }
    assert(int_spans(out@) =~= char_spans(chars@, spans@));
    proof {
        lemma_spans_in_order(chars@, spans@);
    }
    out
}

/// What stands in place of the characters from `from` to `to`.
fn fix(chars: &Vec<char>, rule: &Rule, from: usize, to: usize) -> (out: Vec<char>)
    requires
        from <= to <= chars@.len(),
    ensures
        out@ == fixed(chars@, rule@, from as int, to as int),
{
    let said = slice_of(chars, from, to);
    if is_standalone(chars, from, to) {
        let right = propagate_case(
            string_of(&said).as_str(),
            rule.right.as_str(),
            rule.wrong.as_str(),
        );
        chars_of(right.as_str())
    } else {
        said
    }
}

/// Enforces a rule where it was found.
pub fn replace_found(rule: &Rule, text: &str, spans: &Vec<(usize, usize)>) -> (out: String)
    requires
        well_placed(text@, spans@),
    ensures
        out@ == patched(text@, rule@, char_spans(text@, spans@), 0),
{
    let chars = chars_of(text);
    let n: usize = chars.len();
    let places = spans_in_chars(&chars, spans);
    let ghost all = int_spans(places@);
    let ghost goal = patched(chars@, rule@, all, 0);
    let mut out: Vec<char> = Vec::new();
    let mut from: usize = 0;
    let mut i: usize = 0;
    proof {
        assert(all.skip(0) =~= all);
        assert(out@ + goal =~= goal);
    }
    while i < places.len()
        invariant
            n == chars@.len(),
            all == int_spans(places@),
            in_order(all, n as int),
            i <= places@.len(),
            from <= n,
            i > 0 ==> from == places@[i - 1].1,
            i == 0 ==> from == 0,
            goal == out@ + patched(chars@, rule@, all.skip(i as int), from as int),
        decreases places@.len() - i,
    {
        let (start, end) = places[i];
        proof {
            assert(all[i as int] == (start as int, end as int));
            if i > 0 {
                assert(all[i - 1].1 <= all[i as int].0);
            }
            assert(all.skip(i as int)[0] == (start as int, end as int));
            assert(all.skip(i as int).skip(1) =~= all.skip(i + 1));
        }
        let ghost before = out@;
        push_all(&mut out, &slice_of(&chars, from, start));
        push_all(&mut out, &fix(&chars, rule, start, end));
        proof {
            let rest = patched(chars@, rule@, all.skip(i + 1), end as int);
            assert(before + (chars@.subrange(from as int, start as int) + fixed(
                chars@,
                rule@,
                start as int,
                end as int,
            ) + rest) =~= out@ + rest);
        }
        from = end;
        i += 1;
    }
    proof {
        assert(all.skip(i as int) =~= Seq::<(int, int)>::empty());
    }
    let ghost before = out@;
    push_all(&mut out, &slice_of(&chars, from, n));
    assert(out@ =~= before + chars@.skip(from as int));
    string_of(&out)
}

/// A text with one rule enforced.
pub open spec fn enforced(rule: RuleView, text: Seq<char>) -> Seq<char> {
    match literal_found(rule.wrong, text) {
        Some(spans) => patched(text, rule, char_spans(text, spans), 0),
        None => text,
    }
}

/// A text with rules enforced one after the other.
pub open spec fn enforced_all(rules: Seq<RuleView>, text: Seq<char>) -> Seq<char>
    decreases rules.len(),
{
    if rules.len() == 0 {
        text
    } else {
        enforced(rules.last(), enforced_all(rules.drop_last(), text))
    }
}

pub open spec fn rule_views(rules: Seq<Rule>) -> Seq<RuleView> {
    rules.map_values(|r: Rule| r@)
}

/// The rules that have something to look for.
pub open spec fn usable(rules: Seq<RuleView>) -> Seq<RuleView> {
    picked(rules, |r: RuleView| r.wrong.len() > 0)
}

/// Keys that put the longest wrong form first.
pub open spec fn length_keys(rules: Seq<RuleView>) -> Seq<int> {
    rules.map_values(|r: RuleView| -(r.wrong.len() as int))
}

/// The usable rules, the longest wrong form first, so that "gemini api" wins
/// over "gemini"; rules of one length in the order they have.
pub open spec fn longest_first(rules: Seq<RuleView>) -> Seq<RuleView> {
    arranged(usable(rules), ordered(length_keys(usable(rules))))
}

/// Enforces all rules on a text.
pub fn apply(rules: &Vec<Rule>, text: &str) -> (out: String)
    ensures
        out@ == enforced_all(longest_first(rule_views(rules@)), text@),
{
    let ghost all = rule_views(rules@);
    let ghost keeps = |r: RuleView| r.wrong.len() > 0;
    let mut kept: Vec<usize> = Vec::new();
    let mut keys: Vec<i128> = Vec::new();
    let mut i: usize = 0;
    assert(all.take(0) =~= Seq::<RuleView>::empty());
    while i < rules.len()
        invariant
            i <= rules@.len(),
            all == rule_views(rules@),
            keeps == (|r: RuleView| r.wrong.len() > 0),
            keys@.len() == kept@.len(),
            picked(all.take(i as int), keeps).len() == kept@.len(),
            forall|k: int|
                0 <= k < kept@.len() ==> (#[trigger] kept@[k]) < i && picked(
                    all.take(i as int),
                    keeps,
                )[k] == rules@[kept@[k] as int]@ && rules@[kept@[k] as int]@.wrong.len() > 0,
            forall|k: int|
                0 <= k < keys@.len() ==> #[trigger] keys@[k] == -(picked(
                    all.take(i as int),
                    keeps,
                )[k].wrong.len() as int),
        decreases rules@.len() - i,
    {
        let n: usize = chars_of(rules[i].wrong.as_str()).len();
        proof {
            assert(all.take(i + 1).drop_last() =~= all.take(i as int));
            assert(all.take(i + 1).last() == rules@[i as int]@);
        }
        if n > 0 {
            kept.push(i);
            keys.push(-(n as i128));
        }
        i += 1;
    }
    assert(all.take(rules@.len() as int) =~= all);
    let ghost used = usable(all);
    assert(keys@.map_values(|k: i128| k as int) =~= length_keys(used));
    let order = order_of(&keys);
    let ghost sorted = longest_first(all);
    let mut out = text.to_owned();
    let mut j: usize = 0;
    assert(sorted.take(0) =~= Seq::<RuleView>::empty());
    proof {
        assert forall|k: int| 0 <= k < order@.len() implies (#[trigger] order@[k])
            < kept@.len() by {
            assert(ints(order@)[k] == order@[k] as int);
        }
    }
    while j < order.len()
        invariant
            j <= order@.len(),
            order@.len() == sorted.len(),
            sorted == arranged(used, ints(order@)),
            used.len() == kept@.len(),
            forall|k: int| 0 <= k < order@.len() ==> (#[trigger] order@[k]) < kept@.len(),
            forall|k: int|
                0 <= k < kept@.len() ==> (#[trigger] kept@[k]) < rules@.len() && used[k]
                    == rules@[kept@[k] as int]@ && rules@[kept@[k] as int]@.wrong.len() > 0,
            out@ == enforced_all(sorted.take(j as int), text@),
        decreases order@.len() - j,
    {
        let at: usize = kept[order[j]];
        let rule = &rules[at];
        proof {
            assert(sorted.take(j + 1).drop_last() =~= sorted.take(j as int));
            assert(ints(order@)[j as int] == order@[j as int] as int);
            assert(sorted.take(j + 1).last() == rule@);
        }
        match find_literal(rule.wrong.as_str(), out.as_str()) {
            Some(spans) => {
                out = replace_found(rule, out.as_str(), &spans);
            },
            None => {},
        }
        j += 1;
    }
    assert(sorted.take(sorted.len() as int) =~= sorted);
    out
}

/// Without rules a text passes through.
pub proof fn no_rules_change_nothing(text: Seq<char>)
    ensures
        enforced_all(longest_first(Seq::empty()), text) == text,
{
    let none = usable(Seq::<RuleView>::empty());
    assert(none =~= Seq::<RuleView>::empty());
    crate::rank::lemma_ordered(length_keys(none));
}

/// A longer wrong form is enforced before a shorter one.
pub proof fn longer_forms_come_first(rules: Seq<RuleView>, i: int, j: int)
    requires
        0 <= i < j < longest_first(rules).len(),
    ensures
        longest_first(rules)[i].wrong.len() >= longest_first(rules)[j].wrong.len(),
{
    let used = usable(rules);
    let keys = length_keys(used);
    let order = ordered(keys);
    crate::rank::lemma_ordered(keys);
    assert(crate::rank::precedes(keys, order[i], order[j]));
    assert(keys[order[i]] == -(used[order[i]].wrong.len() as int));
    assert(keys[order[j]] == -(used[order[j]].wrong.len() as int));
}

/// What is glued to a word stays: where no match stands alone, the text does not
/// change.
pub proof fn glued_matches_are_left_alone(
    text: Seq<char>,
    rule: RuleView,
    spans: Seq<(int, int)>,
    from: int,
)
    requires
        0 <= from <= text.len(),
        forall|k: int|
            0 <= k < spans.len() ==> from <= (#[trigger] spans[k]).0 <= spans[k].1 <= text.len()
                && !standalone(text, spans[k].0, spans[k].1),
        forall|k: int, l: int|
            0 <= k < l < spans.len() ==> (#[trigger] spans[k]).1 <= (#[trigger] spans[l]).0,
    ensures
        patched(text, rule, spans, from) == text.skip(from),
    decreases spans.len(),
{
    if spans.len() > 0 {
        let rest = spans.skip(1);
        let end = spans[0].1;
        assert forall|k: int| 0 <= k < rest.len() implies end <= (#[trigger] rest[k]).0
            <= rest[k].1 <= text.len() && !standalone(text, rest[k].0, rest[k].1) by {
            assert(rest[k] == spans[k + 1]);
            assert(spans[0].1 <= spans[k + 1].0);
        }
        assert forall|k: int, l: int| 0 <= k < l < rest.len() implies (#[trigger] rest[k]).1 <= (
        #[trigger] rest[l]).0 by {
            assert(rest[k] == spans[k + 1] && rest[l] == spans[l + 1]);
        }
        glued_matches_are_left_alone(text, rule, rest, end);
        assert(text.subrange(from, spans[0].0) + text.subrange(spans[0].0, end) + text.skip(end)
            =~= text.skip(from));
    }
}

/// A rule with casing of its own puts its right side down exactly as it is
/// written, however the words were said.
pub proof fn explicit_casing_wins(original: Seq<char>, rule: RuleView)
    requires
        explicitly_cased(rule.right, rule.wrong),
    ensures
        cased(original, rule.right, rule.wrong) == rule.right,
{
}

/// A match that a letter, a digit or an underscore follows or comes before is part
/// of a longer word, and stays as it was said.
pub proof fn part_of_a_word_is_left_as_it_was_said(
    text: Seq<char>,
    rule: RuleView,
    from: int,
    to: int,
)
    requires
        0 <= from <= to <= text.len(),
        (to < text.len() && (alphanumeric(text[to]) || text[to] == '_')) || (from > 0 && (
        alphanumeric(text[from - 1]) || text[from - 1] == '_')),
    ensures
        fixed(text, rule, from, to) == text.subrange(from, to),
        patched(text, rule, seq![(from, to)], 0) == text,
{
    let spans = seq![(from, to)];
    assert(spans.skip(1) =~= Seq::<(int, int)>::empty());
    assert(patched(text, rule, spans.skip(1), to) == text.skip(to));
    assert(patched(text, rule, spans, 0) =~= text);
}

/// A match that stands alone gives way to the rule's right side, and the text
/// around it stays: with characters of no word, or an end of the text, on both
/// sides.
pub proof fn a_whole_word_gives_way(text: Seq<char>, rule: RuleView, from: int, to: int)
    requires
        0 <= from <= to <= text.len(),
        to < text.len() ==> !alphanumeric(text[to]) && text[to] != '_',
        from > 0 ==> !alphanumeric(text[from - 1]) && text[from - 1] != '_',
    ensures
        fixed(text, rule, from, to) == cased(text.subrange(from, to), rule.right, rule.wrong),
        patched(text, rule, seq![(from, to)], 0) == text.take(from) + cased(
            text.subrange(from, to),
            rule.right,
            rule.wrong,
        ) + text.skip(to),
{
    let spans = seq![(from, to)];
    assert(spans.skip(1) =~= Seq::<(int, int)>::empty());
    assert(patched(text, rule, spans.skip(1), to) == text.skip(to));
    assert(text.subrange(0, from) =~= text.take(from));
}

/// One more match, after the others, changes the text from there on and nothing
/// before it: the match is fixed, and what follows it is as it was said.
pub proof fn one_more_match_changes_only_itself(
    text: Seq<char>,
    rule: RuleView,
    spans: Seq<(int, int)>,
    from: int,
    start: int,
    end: int,
)
    requires
        0 <= from <= start <= end <= text.len(),
        forall|i: int|
            0 <= i < spans.len() ==> from <= (#[trigger] spans[i]).0 <= spans[i].1 <= start,
        forall|i: int, j: int|
            0 <= i < j < spans.len() ==> (#[trigger] spans[i]).1 <= (#[trigger] spans[j]).0,
    ensures
        ({
            let before = patched(text, rule, spans, from);
            let kept = before.len() - (text.len() - start);
            &&& kept >= 0
            &&& before.skip(kept) == text.skip(start)
            &&& patched(text, rule, spans.push((start, end)), from) == before.take(kept) + fixed(
                text,
                rule,
                start,
                end,
            ) + text.skip(end)
        }),
        patched(text, rule, Seq::empty(), from) == text.skip(from),
    decreases spans.len(),
{
    let more = spans.push((start, end));
    let before = patched(text, rule, spans, from);
    let kept = before.len() - (text.len() - start);
    if spans.len() == 0 {
        assert(more.skip(1) =~= Seq::<(int, int)>::empty());
        assert(patched(text, rule, more.skip(1), end) == text.skip(end));
        assert(before.take(kept) =~= text.subrange(from, start));
        assert(before.skip(kept) =~= text.skip(start));
    } else {
        let first = spans[0];
        let rest = spans.skip(1);
        assert forall|i: int| 0 <= i < rest.len() implies first.1 <= (#[trigger] rest[i]).0
            <= rest[i].1 <= start by {
            assert(rest[i] == spans[i + 1]);
        }
        assert forall|i: int, j: int| 0 <= i < j < rest.len() implies (#[trigger] rest[i]).1 <= (
        #[trigger] rest[j]).0 by {
            assert(rest[i] == spans[i + 1] && rest[j] == spans[j + 1]);
        }
        one_more_match_changes_only_itself(text, rule, rest, first.1, start, end);
        let head = text.subrange(from, first.0) + fixed(text, rule, first.0, first.1);
        let tail = patched(text, rule, rest, first.1);
        let cut = tail.len() - (text.len() - start);
        assert(more[0] == first);
        assert(more.skip(1) =~= rest.push((start, end)));
        assert(before == head + tail);
        assert(before.take(kept) =~= head + tail.take(cut));
        assert(before.skip(kept) =~= tail.skip(cut));
        assert(patched(text, rule, more, from) =~= before.take(kept) + fixed(
            text,
            rule,
            start,
            end,
        ) + text.skip(end));
    }
}

/// A rule that carries no casing of its own follows what was said: in capitals
/// throughout, with a capital first, or as it is written.
pub proof fn the_case_of_what_was_said_is_kept(original: Seq<char>, rule: RuleView)
    requires
        forall|i: int| 0 <= i < rule.right.len() ==> !upper(#[trigger] rule.right[i]),
        forall|i: int| 0 <= i < rule.wrong.len() ==> !upper(#[trigger] rule.wrong[i]),
        lowercase(rule.wrong) != lowercase(rule.right),
        original.len() > 0,
        rule.right.len() > 0,
    ensures
        ({
            let put = cased(original, rule.right, rule.wrong);
            let shouted = original == uppercase(original);
            &&& shouted && original.len() > 1 ==> put == uppercase(rule.right)
            &&& !(shouted && original.len() > 1) && upper(original[0]) ==> put == uppercase(
                seq![rule.right[0]],
            ) + rule.right.skip(1)
            &&& !shouted && !upper(original[0]) ==> put == rule.right
        }),
{
    assert(rule.right.take(1) =~= seq![rule.right[0]]);
}

/// A rule with a capital on either side, or that changes nothing but case, puts
/// its right side down as it is written.
pub proof fn a_rule_with_capitals_is_taken_at_its_word(
    original: Seq<char>,
    rule: RuleView,
    i: int,
)
    ensures
        0 <= i < rule.right.len() && upper(rule.right[i]) ==> cased(
            original,
            rule.right,
            rule.wrong,
        ) == rule.right,
        0 <= i < rule.wrong.len() && upper(rule.wrong[i]) ==> cased(
            original,
            rule.right,
            rule.wrong,
        ) == rule.right,
        rule.wrong.len() > 0 && lowercase(rule.wrong) == lowercase(rule.right) ==> cased(
            original,
            rule.right,
            rule.wrong,
        ) == rule.right,
{
}

/// Every rule that has something to look for is enforced, and no other.
pub proof fn every_usable_rule_is_enforced(rules: Seq<RuleView>, i: int)
    requires
        0 <= i < rules.len(),
    ensures
        rules[i].wrong.len() > 0 ==> longest_first(rules).contains(rules[i]),
        forall|k: int|
            0 <= k < longest_first(rules).len() ==> (#[trigger] longest_first(rules)[k]).wrong.len()
                > 0 && rules.contains(longest_first(rules)[k]),
{
    let used = usable(rules);
    let keys = length_keys(used);
    let order = ordered(keys);
    let keeps = |r: RuleView| r.wrong.len() > 0;
    crate::rank::lemma_ordered(keys);
    if rules[i].wrong.len() > 0 {
        crate::rank::lemma_picks_all(rules, keeps, i);
        let k = choose|k: int| 0 <= k < used.len() && used[k] == rules[i];
        crate::rank::an_order_lists_every_position(keys, order, k);
        let at = choose|at: int| 0 <= at < order.len() && order[at] == k;
        assert(longest_first(rules)[at] == rules[i]);
    }
    assert forall|k: int| 0 <= k < longest_first(rules).len() implies (#[trigger] longest_first(
        rules,
    )[k]).wrong.len() > 0 && rules.contains(longest_first(rules)[k]) by {
        crate::rank::lemma_picked(rules, keeps);
        assert(longest_first(rules)[k] == used[order[k]]);
    }
}

/// A rule whose wrong form is nowhere in the text changes nothing; rules work one
/// after the other, each on what the one before it left.
pub proof fn rules_work_one_after_the_other(rules: Seq<RuleView>, last: RuleView, text: Seq<char>)
    ensures
        literal_found(last.wrong, text) == Some(Seq::<(usize, usize)>::empty()) ==> enforced(
            last,
            text,
        ) == text,
        enforced_all(rules.push(last), text) == enforced(last, enforced_all(rules, text)),
        enforced_all(Seq::empty(), text) == text,
{
    assert(rules.push(last).drop_last() =~= rules);
    let none = Seq::<(usize, usize)>::empty();
    assert(char_spans(text, none) =~= Seq::<(int, int)>::empty());
    assert(text.skip(0) =~= text);
}

/// A rule that was found is enforced where it was found, and nowhere else.
pub proof fn a_rule_is_enforced_where_it_was_found(
    rule: RuleView,
    text: Seq<char>,
    from: usize,
    to: usize,
)
    requires
        literal_found(rule.wrong, text) == Some(seq![(from, to)]),
    ensures
        enforced(rule, text) == patched(
            text,
            rule,
            seq![(char_index(text, from as int), char_index(text, to as int))],
            0,
        ),
{
    assert(char_spans(text, seq![(from, to)]) =~= seq![
        (char_index(text, from as int), char_index(text, to as int)),
    ]);
}

/// Applying the rules is to enforce the usable ones, longest first; without rules
/// the text passes through.
pub proof fn applying_is_enforcing_every_rule(rules: Vec<Rule>, text: &str, out: String)
    requires
        call_ensures(apply, (&rules, text), out),
    ensures
        out@ == enforced_all(longest_first(rule_views(rules@)), text@),
        rules@.len() == 0 ==> out@ == text@,
{
    if rules@.len() == 0 {
        assert(rule_views(rules@) =~= Seq::<RuleView>::empty());
        no_rules_change_nothing(text@);
    }
}

} // verus!
