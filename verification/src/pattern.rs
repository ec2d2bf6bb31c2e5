//! Searching text with the `regex` crate.

use vstd::prelude::*;

use crate::text::{ascii_lowered, boundary, opt_text, plain, stands_at};
use crate::unicode::ascii_alphanumeric;

verus! {

/// Whether a pattern matches somewhere in a text; nothing if it is not a
/// pattern.
pub uninterp spec fn pattern_found(pattern: Seq<char>, text: Seq<char>) -> Option<bool>;

/// The text with every match of a pattern replaced; nothing if it is not a
/// pattern.
pub uninterp spec fn pattern_replaced(
    pattern: Seq<char>,
    text: Seq<char>,
    with: Seq<char>,
) -> Option<Seq<char>>;

/// The first group of the first match of a pattern in a text.
pub uninterp spec fn pattern_group(pattern: Seq<char>, text: Seq<char>) -> Option<Seq<char>>;

/// The bytes at which a literal, whatever its case, stands in a text; nothing if
/// it is too long to search for.
pub uninterp spec fn literal_found(literal: Seq<char>, text: Seq<char>) -> Option<
    Seq<(usize, usize)>,
>;

/// Byte ranges of a text: none empty, each from the start of a character to the
/// start of one, and none before the end of the one before it.
pub open spec fn well_placed(text: Seq<char>, spans: Seq<(usize, usize)>) -> bool {
    &&& forall|k: int|
        0 <= k < spans.len() ==> (#[trigger] spans[k]).0 < spans[k].1 && boundary(
            text,
            spans[k].0 as int,
        ) && boundary(text, spans[k].1 as int)
    &&& forall|k: int, l: int|
        0 <= k < l < spans.len() ==> (#[trigger] spans[k]).1 <= (#[trigger] spans[l]).0
}

/// Where `part` stands in `s` from position `from` on, ASCII case aside: each
/// place as early as the one before it allows.
pub open spec fn occurrences(s: Seq<char>, part: Seq<char>, from: int) -> Seq<(usize, usize)>
    decreases s.len() - from,
{
    if part.len() == 0 || from < 0 || from + part.len() > s.len() {
        Seq::empty()
    } else if stands_at(ascii_lowered(s), ascii_lowered(part), from) {
        seq![(from as usize, (from + part.len()) as usize)] + occurrences(
            s,
            part,
            from + part.len(),
        )
    } else {
        occurrences(s, part, from + 1)
    }
}

/// Whether a character belongs to a word, as `\w` has it: in ASCII the letters,
/// the digits and the underscore.
pub open spec fn word_char(c: char) -> bool {
    if (c as int) < 128 {
        ascii_alphanumeric(c) || c == '_'
    } else {
        pattern_found("\\w"@, seq![c]) == Some(true)
    }
}

/// Whether a text starts with a word and nothing goes on from it.
pub open spec fn starts_with_word(s: Seq<char>, word: Seq<char>) -> bool {
    word.is_prefix_of(s) && (s.len() == word.len() || !word_char(s[word.len() as int]))
}

/// The text with a word replaced wherever it stands alone. `inside` says that what
/// comes before the text belongs to a word.
pub open spec fn word_replaced(
    s: Seq<char>,
    word: Seq<char>,
    with: Seq<char>,
    inside: bool,
) -> Seq<char>
    decreases s.len(),
{
    if s.len() == 0 || word.len() == 0 {
        s
    } else if !inside && starts_with_word(s, word) {
        with + word_replaced(s.skip(word.len() as int), word, with, true)
    } else {
        seq![s[0]] + word_replaced(s.skip(1), word, with, word_char(s[0]))
    }
}

/// A word in lower case, short and in ASCII.
pub open spec fn short_word(word: Seq<char>) -> bool {
    0 < word.len() <= 60 && forall|i: int|
        0 <= i < word.len() ==> 'a' <= #[trigger] word[i] && word[i] <= 'z'
}

/// The word that a pattern finds where it stands alone, if it is such a pattern:
/// the word between two `\b`.
pub open spec fn lone_word(pattern: Seq<char>) -> Option<Seq<char>> {
    let n = pattern.len() as int;
    let word = pattern.subrange(2, n - 2);
    if n > 4 && pattern.take(2) == "\\b"@ && pattern.skip(n - 2) == "\\b"@ && short_word(word) {
        Some(word)
    } else {
        None
    }
}

/// `regex::Regex::is_match` of a compiled pattern.
#[verifier::external_body]
pub(crate) fn is_match(pattern: &str, text: &str) -> (found: Option<bool>)
    ensures
        found == pattern_found(pattern@, text@),
{
    let regex = regex::Regex::new(pattern).ok()?;
    Some(regex.is_match(text))
}

/// `regex::Regex::replace_all` of a compiled pattern. A pattern for a short lone
/// word compiles, and with a replacement that has no `$`, which goes in as it is,
/// the word is replaced wherever it stands alone.
#[verifier::external_body]
pub(crate) fn replace_all(pattern: &str, text: &str, with: &str) -> (replaced: Option<String>)
    ensures
        opt_text(replaced) == pattern_replaced(pattern@, text@, with@),
        lone_word(pattern@) is Some && !with@.contains('$') ==> opt_text(replaced) == Some(
            word_replaced(text@, lone_word(pattern@)->0, with@, false),
        ),
{
    let regex = regex::Regex::new(pattern).ok()?;
    Some(regex.replace_all(text, with).to_string())
}

/// `regex::Regex::captures` of a compiled pattern: the text of the first group.
#[verifier::external_body]
pub(crate) fn first_group(pattern: &str, text: &str) -> (group: Option<String>)
    ensures
        opt_text(group) == pattern_group(pattern@, text@),
{
    let regex = regex::Regex::new(pattern).ok()?;
    let captures = regex.captures(text)?;
    Some(captures.get(1)?.as_str().to_string())
}

/// `regex::Regex::find_iter` of the literal, escaped with `regex::escape` and
/// searched for without regard to case: the byte ranges of the matches, in order
/// and apart. In ASCII text an ASCII literal is found wherever it stands, from
/// left to right.
#[verifier::external_body]
pub(crate) fn find_literal(literal: &str, text: &str) -> (spans: Option<Vec<(usize, usize)>>)
    requires
        literal@.len() > 0,
    ensures
        match spans {
            Some(spans) => literal_found(literal@, text@) == Some(spans@) && well_placed(
                text@,
                spans@,
            ) && (plain(literal@) && plain(text@) ==> spans@ == occurrences(text@, literal@, 0)),
            None => literal_found(literal@, text@) is None,
        },
{
    let escaped = regex::escape(literal);
    let regex = regex::RegexBuilder::new(&escaped).case_insensitive(true).build().ok()?;
    Some(regex.find_iter(text).map(|found| (found.start(), found.end())).collect())
}

/// Whether a word stands alone nowhere in a text.
pub open spec fn free_of(s: Seq<char>, word: Seq<char>, inside: bool) -> bool
    decreases s.len(),
{
    s.len() == 0 || (!(!inside && starts_with_word(s, word)) && free_of(
        s.skip(1),
        word,
        word_char(s[0]),
    ))
}

/// A text in which a word stands alone nowhere is left as it is.
pub proof fn only_lone_words_are_replaced(
    s: Seq<char>,
    word: Seq<char>,
    with: Seq<char>,
    inside: bool,
)
    requires
        free_of(s, word, inside),
    ensures
        word_replaced(s, word, with, inside) == s,
    decreases s.len(),
{
    if s.len() > 0 && word.len() > 0 {
        only_lone_words_are_replaced(s.skip(1), word, with, word_char(s[0]));
        assert(seq![s[0]] + s.skip(1) =~= s);
    }
}

proof fn lemma_free_after(s: Seq<char>, word: Seq<char>, inside: bool, k: int)
    requires
        0 < k <= s.len(),
        free_of(s, word, inside),
    ensures
        free_of(s.skip(k), word, word_char(s[k - 1])),
    decreases k,
{
    if k > 1 {
        lemma_free_after(s.skip(1), word, word_char(s[0]), k - 1);
        assert(s.skip(1).skip(k - 1) =~= s.skip(k));
    }
}

/// Within a word nothing is replaced: as far as the result goes on with the word,
/// and one character further, it is the text.
proof fn lemma_word_goes_on(s: Seq<char>, word: Seq<char>, with: Seq<char>, k: int)
    requires
        word.len() > 0,
        0 <= k <= word_replaced(s, word, with, true).len(),
        forall|j: int| 0 <= j < k ==> word_char(#[trigger] word_replaced(s, word, with, true)[j]),
    ensures
        k <= s.len(),
        word_replaced(s, word, with, true).take(k) == s.take(k),
        k == word_replaced(s, word, with, true).len() <==> k == s.len(),
        k < s.len() ==> word_replaced(s, word, with, true)[k] == s[k],
    decreases s.len(),
{
    let out = word_replaced(s, word, with, true);
    if s.len() > 0 {
        let rest = word_replaced(s.skip(1), word, with, word_char(s[0]));
        assert(out == seq![s[0]] + rest);
        assert(out[0] == s[0]);
        if k > 0 {
            assert(word_char(out[0]));
            assert forall|j: int| 0 <= j < k - 1 implies word_char(#[trigger] rest[j]) by {
                assert(rest[j] == out[j + 1]);
            }
            lemma_word_goes_on(s.skip(1), word, with, k - 1);
            assert(out.take(k) =~= s.take(k)) by {
                assert forall|j: int| 0 <= j < k implies out[j] == s[j] by {
                    if j > 0 {
                        assert(out[j] == rest.take(k - 1)[j - 1]);
                        assert(s.skip(1).take(k - 1)[j - 1] == s[j]);
                    }
                }
            }
        }
    }
    assert(out.take(k) =~= s.take(k));
}

/// Digits hide no word, and what follows them goes on from one.
proof fn lemma_free_behind_digits(digits: Seq<char>, s: Seq<char>, word: Seq<char>, inside: bool)
    requires
        short_word(word),
        digits.len() > 0,
        forall|i: int| 0 <= i < digits.len() ==> '0' <= #[trigger] digits[i] && digits[i] <= '9',
        free_of(s, word, true),
    ensures
        free_of(digits + s, word, inside),
    decreases digits.len(),
{
    let all = digits + s;
    assert(all[0] == digits[0]);
    assert(!word.is_prefix_of(all)) by {
        if word.is_prefix_of(all) {
            assert(word[0] == all.take(word.len() as int)[0]);
        }
    }
    assert(word_char(all[0]));
    if digits.len() == 1 {
        assert(all.skip(1) =~= s);
    } else {
        let rest = digits.skip(1);
        assert forall|i: int| 0 <= i < rest.len() implies '0' <= #[trigger] rest[i] && rest[i]
            <= '9' by {
            assert(rest[i] == digits[i + 1]);
        }
        lemma_free_behind_digits(rest, s, word, true);
        assert(all.skip(1) =~= rest + s);
    }
}

/// Writing one word as digits leaves none of it, and makes no other word stand
/// alone that did not.
pub proof fn digits_leave_no_word(
    s: Seq<char>,
    word: Seq<char>,
    digits: Seq<char>,
    inside: bool,
    other: Seq<char>,
)
    requires
        short_word(word),
        short_word(other),
        digits.len() > 0,
        forall|i: int| 0 <= i < digits.len() ==> '0' <= #[trigger] digits[i] && digits[i] <= '9',
        other == word || free_of(s, other, inside),
    ensures
        free_of(word_replaced(s, word, digits, inside), other, inside),
    decreases s.len(),
{
    let out = word_replaced(s, word, digits, inside);
    if s.len() == 0 {
    } else if !inside && starts_with_word(s, word) {
        let k = word.len() as int;
        assert(s.take(k) =~= word);
        assert(s[k - 1] == word[k - 1]);
        assert(word_char(s[k - 1]));
        if other != word {
            lemma_free_after(s, other, inside, k);
        }
        digits_leave_no_word(s.skip(k), word, digits, true, other);
        lemma_free_behind_digits(
            digits,
            word_replaced(s.skip(k), word, digits, true),
            other,
            inside,
        );
    } else {
        let next = word_char(s[0]);
        let rest = word_replaced(s.skip(1), word, digits, next);
        digits_leave_no_word(s.skip(1), word, digits, next, other);
        assert(out.skip(1) =~= rest);
        assert(out[0] == s[0]);
        if !inside && starts_with_word(out, other) {
            let k = other.len() as int;
            assert(other =~= out.take(k));
            assert(other[0] == s[0]);
            assert(next);
            assert forall|j: int| 0 <= j < k - 1 implies word_char(#[trigger] rest[j]) by {
                assert(rest[j] == out[j + 1]);
                assert(out.take(k)[j + 1] == other[j + 1]);
            }
            lemma_word_goes_on(s.skip(1), word, digits, k - 1);
            assert(s.take(k) =~= other) by {
                assert forall|j: int| 0 <= j < k implies s[j] == other[j] by {
                    assert(other[j] == out.take(k)[j]);
                    if j > 0 {
                        assert(rest.take(k - 1)[j - 1] == s.skip(1).take(k - 1)[j - 1]);
                        assert(out[j] == rest[j - 1]);
                    }
                }
            }
            assert(starts_with_word(s, other)) by {
                if s.len() > k {
                    assert(out[k] == rest[k - 1]);
                    assert(s.skip(1)[k - 1] == s[k]);
                }
            }
        }
    }
}

} // verus!
