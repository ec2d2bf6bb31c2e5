//! "Is there a newer Jot?"
//!
//! One question, asked when the About window opens, and an answer that says
//! where to click. Nothing is downloaded.

use vstd::prelude::*;

use crate::text::{
    chars_of,
    decimal,
    same_chars,
    slice_of,
    split,
    split_at_each,
    stands_at,
    string_of,
    views,
};

verus! {

/// A release newer than the one running.
#[derive(Debug, PartialEq, Eq)]
pub struct Update {
    pub version: String,
    pub page: String,
}

/// The last place at or before `upto` where `part` stands in `s`.
pub open spec fn last_at(s: Seq<char>, part: Seq<char>, upto: int) -> Option<int>
    decreases upto + 1,
{
    if upto < 0 {
        None
    } else if stands_at(s, part, upto) {
        Some(upto)
    } else {
        last_at(s, part, upto - 1)
    }
}

/// What stands before and after the last `part`.
pub open spec fn around_last(s: Seq<char>, part: Seq<char>) -> Option<(Seq<char>, Seq<char>)> {
    match last_at(s, part, s.len() as int) {
        Some(i) => Some((s.take(i), s.skip(i + part.len()))),
        None => None,
    }
}

fn find_last(s: &Vec<char>, part: &Vec<char>) -> (at: Option<usize>)
    ensures
        match at {
            Some(i) => last_at(s@, part@, s@.len() as int) == Some(i as int) && stands_at(
                s@,
                part@,
                i as int,
            ),
            None => last_at(s@, part@, s@.len() as int) is None,
        },
{
    let n: usize = s.len();
    let k: usize = part.len();
    let mut i: usize = n;
    loop
        invariant
            n == s@.len(),
            k == part@.len(),
            i <= n,
            last_at(s@, part@, n as int) == last_at(s@, part@, i as int),
        decreases i,
    {
        if k <= n - i {
            let here = slice_of(s, i, i + k);
            if same_chars(&here, part) {
                assert(stands_at(s@, part@, i as int));
                return Some(i);
            }
        }
        assert(!stands_at(s@, part@, i as int));
        if i == 0 {
            assert(last_at(s@, part@, -1) is None);
            return None;
        }
        i -= 1;
    }
}

/// The tag that a link to a release ends in.
pub open spec fn tag_of(location: Seq<char>) -> Option<Seq<char>> {
    match around_last(location, "/releases/tag/"@) {
        Some((before, tag)) => if before.len() > 0 && tag.len() > 0 {
            Some(tag)
        } else {
            None
        },
        None => None,
    }
}

/// Pulls `v0.3.0` out of `https://github.com/o/r/releases/tag/v0.3.0`.
pub fn release_tag(location: &str) -> (tag: Option<String>)
    ensures
        crate::text::opt_text(tag) == tag_of(location@),
{
    let chars = chars_of(location);
    let part = chars_of("/releases/tag/");
    let n: usize = chars.len();
    match find_last(&chars, &part) {
        Some(i) => {
            let from: usize = i + part.len();
            if i == 0 || from == n {
                return None;
            }
            let tag = slice_of(&chars, from, n);
            assert(tag@ =~= chars@.skip(from as int));
            Some(string_of(&tag))
        },
        None => None,
    }
}

/// Without the letters `v` it starts with.
pub open spec fn bare(version: Seq<char>) -> Seq<char>
    decreases version.len(),
{
    if version.len() > 0 && version[0] == 'v' {
        bare(version.skip(1))
    } else {
        version
    }
}

fn bare_of(version: &Vec<char>) -> (out: Vec<char>)
    ensures
        out@ == bare(version@),
{
    let mut from: usize = 0;
    assert(version@.skip(0) =~= version@);
    while from < version.len() && version[from] == 'v'
        invariant
            from <= version@.len(),
            bare(version@) == bare(version@.skip(from as int)),
        decreases version@.len() - from,
    {
        assert(version@.skip(from as int).skip(1) =~= version@.skip(from + 1));
        from += 1;
    }
    let out = slice_of(version, from, version.len());
    assert(out@ =~= version@.skip(from as int));
    out
}

pub open spec fn is_digit(c: char) -> bool {
    '0' <= c && c <= '9'
}

pub open spec fn all_digits(s: Seq<char>) -> bool {
    forall|i: int| 0 <= i < s.len() ==> is_digit(#[trigger] s[i])
}

/// The number that a run of digits writes.
pub open spec fn value(s: Seq<char>) -> nat
    decreases s.len(),
{
    if s.len() == 0 {
        0
    } else {
        (value(s.drop_last()) * 10 + (s.last() as int - 48)) as nat
    }
}

/// A plain number: digits, perhaps after a plus sign, that fit 32 bits.
pub open spec fn number(s: Seq<char>) -> Option<u32> {
    let digits = if s.len() > 0 && s[0] == '+' {
        s.skip(1)
    } else {
        s
    };
    if digits.len() > 0 && all_digits(digits) && value(digits) <= u32::MAX {
        Some(value(digits) as u32)
    } else {
        None
    }
}

#[verifier::loop_isolation(false)]
fn number_of(s: &Vec<char>) -> (n: Option<u32>)
    ensures
        n == number(s@),
{
    let from: usize = if s.len() > 0 && s[0] == '+' {
        1
    } else {
        0
    };
    let digits = slice_of(s, from, s.len());
    proof {
        if s@.len() > 0 && s@[0] == '+' {
            assert(digits@ =~= s@.skip(1));
        } else {
            assert(digits@ =~= s@);
        }
    }
    if digits.len() == 0 {
        return None;
    }
    let mut total: u32 = 0;
    let mut too_large = false;
    let mut i: usize = 0;
    assert(digits@.take(0) =~= Seq::<char>::empty());
    while i < digits.len()
        invariant
            i <= digits@.len(),
            all_digits(digits@.take(i as int)),
            too_large ==> value(digits@.take(i as int)) > u32::MAX,
            !too_large ==> total == value(digits@.take(i as int)),
        decreases digits@.len() - i,
    {
        let c: char = digits[i];
        if c < '0' || c > '9' {
            assert(!is_digit(digits@[i as int]));
            return None;
        }
        let d: u32 = (c as u32) - 48;
        proof {
            let here = digits@.take(i + 1);
            assert(here.drop_last() =~= digits@.take(i as int));
            assert(here.last() == c);
            assert forall|k: int| 0 <= k < here.len() implies is_digit(#[trigger] here[k]) by {
                if k < i {
                    assert(here[k] == digits@.take(i as int)[k]);
                }
            }
        }
        if !too_large {
            let wide: u64 = total as u64 * 10 + d as u64;
            if wide > u32::MAX as u64 {
                too_large = true;
            } else {
                total = wide as u32;
            }
        }
        i += 1;
    }
    assert(digits@.take(digits@.len() as int) =~= digits@);
    if too_large {
        None
    } else {
        Some(total)
    }
}

/// The numbers a list of parts starts with.
pub open spec fn leading_numbers(parts: Seq<Seq<char>>) -> Seq<u32>
    decreases parts.len(),
{
    if parts.len() == 0 || number(parts[0]) is None {
        Seq::empty()
    } else {
        seq![number(parts[0])->0] + leading_numbers(parts.skip(1))
    }
}

/// A version as numbers. A part that is not a plain number ends it rather than
/// being guessed at, so `0.3.0-rc1` counts as `0.3`.
pub open spec fn version_numbers(version: Seq<char>) -> Seq<u32> {
    leading_numbers(split(bare(version), '.'))
}

#[verifier::loop_isolation(false)]
fn numbers(version: &str) -> (list: Vec<u32>)
    ensures
        list@ == version_numbers(version@),
{
    let parts = split_at_each(&bare_of(&chars_of(version)), '.');
    let mut list: Vec<u32> = Vec::new();
    let mut i: usize = 0;
    let ghost all = views(parts@);
    assert(all.skip(0) =~= all);
    assert(leading_numbers(all) =~= list@ + leading_numbers(all.skip(0)));
    while i < parts.len()
        invariant
            i <= parts@.len(),
            all == views(parts@),
            leading_numbers(all) == list@ + leading_numbers(all.skip(i as int)),
        decreases parts@.len() - i,
    {
        assert(all.skip(i as int)[0] == parts@[i as int]@);
        match number_of(&parts[i]) {
            Some(n) => {
                let ghost before = list@;
                list.push(n);
                proof {
                    assert(all.skip(i as int).skip(1) =~= all.skip(i + 1));
                    assert(before + (seq![n] + leading_numbers(all.skip(i + 1))) =~= list@
                        + leading_numbers(all.skip(i + 1)));
                }
            },
            None => {
                assert(leading_numbers(all.skip(i as int)) =~= Seq::<u32>::empty());
                assert(list@ =~= leading_numbers(all));
                return list;
            },
        }
        i += 1;
    }
    assert(all.skip(i as int) =~= Seq::<Seq<char>>::empty());
    assert(list@ =~= leading_numbers(all));
    list
}

/// Whether `a` comes after `b`: at the first difference, or by being longer.
pub open spec fn after(a: Seq<u32>, b: Seq<u32>) -> bool
    decreases a.len(),
{
    if a.len() == 0 {
        false
    } else if b.len() == 0 {
        true
    } else if a[0] != b[0] {
        a[0] > b[0]
    } else {
        after(a.skip(1), b.skip(1))
    }
}

/// Compares dotted numeric versions.
#[verifier::loop_isolation(false)]
pub fn is_newer(latest: &str, current: &str) -> (newer: bool)
    ensures
        newer == after(version_numbers(latest@), version_numbers(current@)),
{
    let a = numbers(latest);
    let b = numbers(current);
    let mut i: usize = 0;
    assert(a@.skip(0) =~= a@);
    assert(b@.skip(0) =~= b@);
    loop
        invariant
            i <= a@.len(),
            i <= b@.len(),
            after(a@, b@) == after(a@.skip(i as int), b@.skip(i as int)),
        decreases a@.len() - i,
    {
        if i == a.len() {
            return false;
        }
        if i == b.len() {
            return true;
        }
        if a[i] != b[i] {
            return a[i] > b[i];
        }
        assert(a@.skip(i as int).skip(1) =~= a@.skip(i + 1));
        assert(b@.skip(i as int).skip(1) =~= b@.skip(i + 1));
        i += 1;
    }
}

/// What the redirect to the newest release says to a program of version
/// `current`: no tag in it, already current, or an update.
pub fn newer_release(page: &str, current: &str) -> (found: Result<Option<Update>, String>)
    ensures
        match tag_of(page@) {
            None => found matches Err(message) && message@
                == "no release tag in GitHub's redirect to "@ + page@,
            Some(tag) => if after(version_numbers(bare(tag)), version_numbers(current@)) {
                found matches Ok(Some(update)) && update.version@ == bare(tag) && update.page@
                    == page@
            } else {
                found matches Ok(None)
            },
        },
{
    match release_tag(page) {
        Some(tag) => {
            let version = string_of(&bare_of(&chars_of(tag.as_str())));
            if is_newer(version.as_str(), current) {
                Ok(Some(Update { version, page: page.to_owned() }))
            } else {
                Ok(None)
            }
        },
        None => {
            let mut message = "no release tag in GitHub's redirect to ".to_owned();
            message.append(page);
            Err(message)
        },
    }
}

/// A version is never newer than itself.
pub proof fn no_version_is_newer_than_itself(a: Seq<u32>)
    ensures
        !after(a, a),
    decreases a.len(),
{
    if a.len() > 0 {
        no_version_is_newer_than_itself(a.skip(1));
    }
}

/// Of two versions at most one is newer than the other.
pub proof fn newer_is_one_way(a: Seq<u32>, b: Seq<u32>)
    requires
        after(a, b),
    ensures
        !after(b, a),
    decreases a.len(),
{
    if a.len() > 0 && b.len() > 0 && a[0] == b[0] {
        newer_is_one_way(a.skip(1), b.skip(1));
    }
}

/// Of two different versions one is newer.
pub proof fn versions_are_comparable(a: Seq<u32>, b: Seq<u32>)
    requires
        a != b,
    ensures
        after(a, b) || after(b, a),
    decreases a.len(),
{
    if a.len() == 0 {
        if b.len() == 0 {
            assert(a =~= b);
        }
    } else if b.len() > 0 && a[0] == b[0] {
        if a.skip(1) == b.skip(1) {
            assert(a =~= seq![a[0]] + a.skip(1));
            assert(b =~= seq![b[0]] + b.skip(1));
        }
        versions_are_comparable(a.skip(1), b.skip(1));
    }
}

/// Newer than newer is newer.
pub proof fn newer_carries_over(a: Seq<u32>, b: Seq<u32>, c: Seq<u32>)
    requires
        after(a, b),
        after(b, c),
    ensures
        after(a, c),
    decreases a.len(),
{
    if a.len() > 0 && b.len() > 0 && c.len() > 0 && a[0] == b[0] && b[0] == c[0] {
        newer_carries_over(a.skip(1), b.skip(1), c.skip(1));
    }
}

/// At the first number in which two versions differ, the one with the greater
/// number is newer; and a version that goes on where the other ends is newer.
pub proof fn the_first_difference_decides(a: Seq<u32>, b: Seq<u32>, k: int)
    requires
        0 <= k <= a.len(),
        k <= b.len(),
        forall|i: int| 0 <= i < k ==> #[trigger] a[i] == b[i],
    ensures
        k < a.len() && k < b.len() && a[k] > b[k] ==> after(a, b),
        k < a.len() && k < b.len() && a[k] < b[k] ==> !after(a, b),
        k < a.len() && k == b.len() ==> after(a, b),
        k == a.len() ==> !after(a, b),
    decreases k,
{
    if k > 0 {
        assert(a[0] == b[0]);
        let (x, y) = (a.skip(1), b.skip(1));
        assert forall|i: int| 0 <= i < k - 1 implies #[trigger] x[i] == y[i] by {
            assert(x[i] == a[i + 1] && y[i] == b[i + 1]);
        }
        the_first_difference_decides(x, y, k - 1);
    }
}

proof fn lemma_decimal_value(n: nat)
    ensures
        value(decimal(n)) == n,
        all_digits(decimal(n)),
        decimal(n).len() > 0,
        decimal(n)[0] != '+',
        decimal(n)[0] != 'v',
        !decimal(n).contains('.'),
    decreases n,
{
    let s = decimal(n);
    if n >= 10 {
        lemma_decimal_value(n / 10);
        let front = decimal(n / 10);
        assert(s.drop_last() =~= front);
        assert forall|i: int| 0 <= i < s.len() implies is_digit(#[trigger] s[i]) by {
            if i < front.len() {
                assert(s[i] == front[i]);
            }
        }
        assert(s[0] == front[0]);
    } else {
        assert(s.drop_last() =~= Seq::<char>::empty());
        assert(value(Seq::<char>::empty()) == 0);
    }
    assert forall|i: int| 0 <= i < s.len() implies s[i] != '.' by {
        assert(is_digit(s[i]));
    }
}

/// A number is read as it is written.
pub proof fn a_written_number_is_read(n: u32, rest: Seq<Seq<char>>, word: Seq<char>)
    ensures
        number(decimal(n as nat)) == Some(n),
        leading_numbers(seq![decimal(n as nat)] + rest) == seq![n] + leading_numbers(rest),
        number(word) is None ==> leading_numbers(seq![word] + rest) == Seq::<u32>::empty(),
        leading_numbers(Seq::empty()) == Seq::<u32>::empty(),
{
    lemma_decimal_value(n as nat);
    let parts = seq![decimal(n as nat)] + rest;
    assert(parts[0] == decimal(n as nat));
    assert(parts.skip(1) =~= rest);
    assert((seq![word] + rest)[0] == word);
}

/// A part that is not a plain number is none: it is empty, or has a character that
/// is no digit.
pub proof fn a_word_is_no_number(word: Seq<char>, i: int)
    ensures
        word.len() == 0 ==> number(word) is None,
        0 < i < word.len() && !is_digit(word[i]) ==> number(word) is None,
        word.len() > 0 && word[0] != '+' && !is_digit(word[0]) ==> number(word) is None,
{
    if 0 < i < word.len() && !is_digit(word[i]) {
        if word[0] == '+' {
            assert(word.skip(1)[i - 1] == word[i]);
        }
    }
}

/// The letter in front of a version does not count.
pub proof fn the_letter_in_front_does_not_count(version: Seq<char>)
    ensures
        version_numbers(seq!['v'] + version) == version_numbers(version),
        bare(seq!['v'] + version) == bare(version),
        version.len() > 0 && version[0] != 'v' ==> bare(version) == version,
{
    assert((seq!['v'] + version).skip(1) =~= version);
}

proof fn lemma_none_after(s: Seq<char>, part: Seq<char>, at: int, upto: int)
    requires
        0 <= at <= upto,
        stands_at(s, part, at),
        forall|j: int| at < j <= upto ==> !#[trigger] stands_at(s, part, j),
    ensures
        last_at(s, part, upto) == Some(at),
    decreases upto - at,
{
    if upto > at {
        assert(!stands_at(s, part, upto));
        lemma_none_after(s, part, at, upto - 1);
    }
}

/// The tag of a release is what its link ends in.
pub proof fn a_link_ends_in_its_tag(before: Seq<char>, tag: Seq<char>)
    requires
        before.len() > 0,
        tag.len() > 0,
        !tag.contains('/'),
    ensures
        tag_of(before + "/releases/tag/"@ + tag) == Some(tag),
{
    reveal_strlit("/releases/tag/");
    let part = "/releases/tag/"@;
    let s = before + part + tag;
    let at = before.len() as int;
    assert(s.subrange(at, at + part.len()) =~= part);
    assert forall|j: int| at < j <= s.len() implies !#[trigger] stands_at(s, part, j) by {
        if stands_at(s, part, j) {
            let here = s.subrange(j, j + part.len());
            assert(here[0] == s[j] && here[1] == s[j + 1] && here[9] == s[j + 9]);
            assert(part[0] == '/' && part[1] == 'r' && part[9] == '/');
            if j < at + part.len() {
                assert(s[j] == part[j - at]);
                if j == at + 9 {
                    assert(s[j + 1] == part[10]);
                } else if j == at + 13 {
                    assert(s[j + 9] == tag[8]);
                    assert(tag.contains(tag[8]));
                }
            } else {
                assert(s[j] == tag[j - at - part.len()]);
                assert(tag.contains(tag[j - at - part.len()]));
            }
        }
    }
    lemma_none_after(s, part, at, s.len() as int);
    assert(s.take(at) =~= before);
    assert(s.skip(at + part.len()) =~= tag);
}

/// An update is offered exactly for a release with a greater version, under the
/// version without its letter and the page it is on.
pub proof fn only_a_newer_release_is_offered(
    page: &str,
    current: &str,
    found: Result<Option<Update>, String>,
)
    requires
        call_ensures(newer_release, (page, current), found),
    ensures
        found is Err <==> tag_of(page@) is None,
        tag_of(page@) matches Some(tag) ==> {
            let newer = after(version_numbers(bare(tag)), version_numbers(current@));
            &&& found matches Ok(offer) && (offer is Some <==> newer)
            &&& found matches Ok(Some(update)) ==> update.version@ == bare(tag) && update.page@
                == page@
        },
{
}

/// A version of three numbers is read as the three.
pub proof fn a_dotted_version_is_its_numbers(a: u32, b: u32, c: u32)
    ensures
        ({
            let dot = seq!['.'];
            let version = decimal(a as nat) + dot + decimal(b as nat) + dot + decimal(c as nat);
            version_numbers(version) == seq![a, b, c]
        }),
{
    let dot = seq!['.'];
    let (x, y, z) = (decimal(a as nat), decimal(b as nat), decimal(c as nat));
    let version = x + dot + y + dot + z;
    lemma_decimal_value(a as nat);
    lemma_decimal_value(b as nat);
    lemma_decimal_value(c as nat);
    crate::text::a_separator_parts(Seq::empty(), x, '.');
    crate::text::a_separator_parts(x, y, '.');
    crate::text::a_separator_parts(x + dot + y, z, '.');
    assert(version[0] == x[0]);
    assert(split(version, '.') =~= seq![x, y, z]);
    assert(seq![x, y, z] =~= seq![x] + (seq![y] + (seq![z] + Seq::<Seq<char>>::empty())));
    a_written_number_is_read(a, seq![y] + (seq![z] + Seq::<Seq<char>>::empty()), x);
    a_written_number_is_read(b, seq![z] + Seq::<Seq<char>>::empty(), y);
    a_written_number_is_read(c, Seq::<Seq<char>>::empty(), z);
    assert(version_numbers(version) =~= seq![a, b, c]);
}

} // verus!
