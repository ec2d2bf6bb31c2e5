//! Identifiers of sessions and dictionary entries.

use vstd::prelude::*;

verus! {

/// A hexadecimal digit as it is written, in lower case.
pub open spec fn hex_char(d: int) -> char {
    if d < 10 {
        (d + 48) as char
    } else {
        (d + 87) as char
    }
}

/// The last `width` hexadecimal digits of a number.
pub open spec fn hex(n: nat, width: nat) -> Seq<char>
    decreases width,
{
    if width == 0 {
        Seq::empty()
    } else {
        hex(n / 16, (width - 1) as nat).push(hex_char((n % 16) as int))
    }
}

/// The 32 digits of an identifier.
pub open spec fn simple_text(id: u128) -> Seq<char> {
    hex(id as nat, 32)
}

/// The digits of an identifier in their groups.
pub open spec fn hyphenated_text(id: u128) -> Seq<char> {
    let digits = simple_text(id);
    digits.subrange(0, 8) + seq!['-'] + digits.subrange(8, 12) + seq!['-'] + digits.subrange(12, 16)
        + seq!['-'] + digits.subrange(16, 20) + seq!['-'] + digits.subrange(20, 32)
}

/// `uuid::Uuid::simple` of the identifier with this value, as a string: its 32
/// hexadecimal digits, the most significant first, in lower case.
#[verifier::external_body]
pub(crate) fn simple(id: u128) -> (text: String)
    ensures
        text@ == simple_text(id),
{
    uuid::Uuid::from_u128(id).simple().to_string()
}

/// `uuid::Uuid::hyphenated` of the identifier with this value, as a string: its
/// digits in groups of 8, 4, 4, 4 and 12.
#[verifier::external_body]
pub(crate) fn hyphenated(id: u128) -> (text: String)
    ensures
        text@ == hyphenated_text(id),
{
    uuid::Uuid::from_u128(id).hyphenated().to_string()
}

/// Marked as a random identifier: its version digit is 4, and its variant digit
/// one of the four that go with it.
pub open spec fn random_id(id: u128) -> bool {
    let digits = simple_text(id);
    &&& digits[12] == '4'
    &&& digits[16] == '8' || digits[16] == '9' || digits[16] == 'a' || digits[16] == 'b'
}

/// `uuid::Uuid::new_v4`: a random identifier, marked as one. Nothing else is
/// known of it, not even that it differs from the last one.
#[verifier::external_body]
pub(crate) fn new_v4() -> (id: u128)
    ensures
        random_id(id),
{
    uuid::Uuid::new_v4().as_u128()
}

/// A number is the digits it is written in.
pub open spec fn hex_value(d: char) -> int {
    if d as int >= 97 {
        d as int - 87
    } else {
        d as int - 48
    }
}

proof fn lemma_hex_char(d: int)
    requires
        0 <= d < 16,
    ensures
        hex_value(hex_char(d)) == d,
{
}

proof fn lemma_hex_len(n: nat, width: nat)
    ensures
        hex(n, width).len() == width,
    decreases width,
{
    if width > 0 {
        lemma_hex_len(n / 16, (width - 1) as nat);
    }
}

/// An identifier has 32 digits.
pub proof fn lemma_simple_len(id: u128)
    ensures
        simple_text(id).len() == 32,
{
    lemma_hex_len(id as nat, 32);
}

/// The power of sixteen.
pub open spec fn sixteens(width: nat) -> nat
    decreases width,
{
    if width == 0 {
        1
    } else {
        16 * sixteens((width - 1) as nat)
    }
}

proof fn lemma_hex_is_faithful(a: nat, b: nat, width: nat)
    requires
        a < sixteens(width),
        b < sixteens(width),
        hex(a, width) == hex(b, width),
    ensures
        a == b,
    decreases width,
{
    if width > 0 {
        let w = (width - 1) as nat;
        let ha = hex(a / 16, w);
        let hb = hex(b / 16, w);
        assert(hex(a, width).drop_last() =~= ha);
        assert(hex(b, width).drop_last() =~= hb);
        assert(hex(a, width).last() == hex_char((a % 16) as int));
        assert(hex(b, width).last() == hex_char((b % 16) as int));
        lemma_hex_char((a % 16) as int);
        lemma_hex_char((b % 16) as int);
        assert(a / 16 < sixteens(w));
        assert(b / 16 < sixteens(w));
        lemma_hex_is_faithful(a / 16, b / 16, w);
    }
}

/// Two identifiers with the same text are the same identifier.
pub proof fn texts_identify(a: u128, b: u128)
    requires
        hyphenated_text(a) == hyphenated_text(b),
    ensures
        a == b,
{
    lemma_hex_len(a as nat, 32);
    lemma_hex_len(b as nat, 32);
    let x = hyphenated_text(a);
    let y = hyphenated_text(b);
    let da = simple_text(a);
    let db = simple_text(b);
    assert forall|i: int| 0 <= i < 32 implies da[i] == db[i] by {
        let at = if i < 8 {
            i
        } else if i < 12 {
            i + 1
        } else if i < 16 {
            i + 2
        } else if i < 20 {
            i + 3
        } else {
            i + 4
        };
        assert(x[at] == da[i]);
        assert(y[at] == db[i]);
    }
    assert(da =~= db);
    assert(sixteens(32) == 0x1_0000_0000_0000_0000_0000_0000_0000_0000) by {
        reveal_with_fuel(sixteens, 33);
    }
    lemma_hex_is_faithful(a as nat, b as nat, 32);
}

} // verus!
