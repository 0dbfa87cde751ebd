//! Universally unique identifiers as text.  A UUID is held as the `u128`
//! whose big-endian bytes are its sixteen bytes; the `uuid` crate does the
//! parsing, formatting and generation.

use vstd::prelude::*;

verus! {

/// The lower-case hexadecimal digit for `d`, for `0 <= d < 16`.
pub open spec fn hex_digit(d: int) -> char {
    if d == 0 { '0' } else if d == 1 { '1' } else if d == 2 { '2' } else if d == 3 { '3' }
    else if d == 4 { '4' } else if d == 5 { '5' } else if d == 6 { '6' } else if d == 7 { '7' }
    else if d == 8 { '8' } else if d == 9 { '9' } else if d == 10 { 'a' } else if d == 11 { 'b' }
    else if d == 12 { 'c' } else if d == 13 { 'd' } else if d == 14 { 'e' } else { 'f' }
}

/// The last `n` hexadecimal digits of `v`, most significant first.
pub open spec fn hex_digits(v: nat, n: nat) -> Seq<char>
    decreases n,
{
    if n == 0 {
        Seq::empty()
    } else {
        hex_digits(v / 16, (n - 1) as nat).push(hex_digit((v % 16) as int))
    }
}

/// The hyphenated text of a UUID: its 32 lower-case hexadecimal digits in
/// groups of 8, 4, 4, 4 and 12, separated by `-`.
pub open spec fn hyphenated_text(u: u128) -> Seq<char> {
    let d = hex_digits(u as nat, 32);
    d.subrange(0, 8) + seq!['-'] + d.subrange(8, 12) + seq!['-'] + d.subrange(12, 16) + seq!['-']
        + d.subrange(16, 20) + seq!['-'] + d.subrange(20, 32)
}

/// The value of a hexadecimal digit of either case.
pub open spec fn hex_value(c: char) -> Option<nat> {
    let v = c as int;
    if 48 <= v <= 57 {
        Some((v - 48) as nat)
    } else if 97 <= v <= 102 {
        Some((v - 87) as nat)
    } else if 65 <= v <= 70 {
        Some((v - 55) as nat)
    } else {
        None
    }
}

/// The number that a text of hexadecimal digits writes, most significant
/// first, or `None` where a character is no hexadecimal digit.
pub open spec fn hex_number(s: Seq<char>) -> Option<nat>
    decreases s.len(),
{
    if s.len() == 0 {
        Some(0)
    } else {
        match (hex_number(s.drop_last()), hex_value(s.last())) {
            (Some(high), Some(low)) => Some(16 * high + low),
            _ => None,
        }
    }
}

pub open spec fn urn_prefix() -> Seq<char> {
    seq!['u', 'r', 'n', ':', 'u', 'u', 'i', 'd', ':']
}

/// Whether a 36-character text has `-` at positions 8, 13, 18 and 23.
pub open spec fn hyphens_in_place(s: Seq<char>) -> bool {
    &&& s.len() == 36
    &&& s[8] == '-'
    &&& s[13] == '-'
    &&& s[18] == '-'
    &&& s[23] == '-'
}

/// A hyphenated text without its four hyphens.
pub open spec fn without_hyphens(s: Seq<char>) -> Seq<char> {
    s.subrange(0, 8) + s.subrange(9, 13) + s.subrange(14, 18) + s.subrange(19, 23) + s.subrange(24, 36)
}

/// The UUID that `uuid::Uuid::parse_str` reads from a text: 32 hexadecimal
/// digits of either case, either alone or in groups of 8, 4, 4, 4 and 12
/// separated by `-`, and the latter possibly after `urn:uuid:`; `None` for
/// any other text.
pub open spec fn uuid_from_text(s: Seq<char>) -> Option<u128> {
    let body = if s.len() == 45 && s.take(9) == urn_prefix() { s.skip(9) } else { s };
    let digits = if hyphens_in_place(body) {
        Some(without_hyphens(body))
    } else if body.len() == 32 {
        Some(body)
    } else {
        None
    };
    match digits {
        Some(d) => match hex_number(d) {
            Some(n) => Some(n as u128),
            None => None,
        },
        None => None,
    }
}

/// Calls `uuid::Uuid::parse_str` on the text made of `text`.  Trusted: the
/// crate's parser (`parser/mod.rs`) accepts exactly the texts that
/// [`uuid_from_text`] describes (its length test is on bytes, and it accepts
/// no byte but hexadecimal digits and `-`, so only ASCII texts pass), and the
/// UUID's bytes are the digit pairs in order, as `as_u128` reads them.
#[verifier::external_body]
pub(crate) fn parse_uuid(text: &[char]) -> (r: Option<u128>)
    ensures
        r == uuid_from_text(text@),
{
    let s: String = text.iter().collect();
    uuid::Uuid::parse_str(&s).ok().map(|u| u.as_u128())
}

/// Calls `to_string` on `uuid::Uuid::from_u128(u)`.  Trusted: the `Display`
/// of a `Uuid` is its lower-case hyphenated form.
#[verifier::external_body]
pub(crate) fn uuid_to_text(u: u128) -> (r: String)
    ensures
        r@ == hyphenated_text(u),
{
    uuid::Uuid::from_u128(u).to_string()
}

/// Whether `u` is a random (version 4) UUID of the RFC 4122 variant: the
/// version nibble (the high half of byte 6) is 4 and the two high bits of
/// byte 8 are `10`.
pub open spec fn is_random_uuid(u: u128) -> bool {
    &&& (u >> 76u128) & 0xfu128 == 4
    &&& (u >> 62u128) & 3u128 == 2
}

/// Calls `uuid::Uuid::new_v4`.  Trusted: its bytes are random but for the
/// version and variant that `new_v4` sets (version 4, RFC 4122 variant).
#[verifier::external_body]
pub(crate) fn random_uuid() -> (r: u128)
    ensures
        is_random_uuid(r),
{
    uuid::Uuid::new_v4().as_u128()
}

/// `16` to the power `n`.
pub open spec fn pow16(n: nat) -> nat
    decreases n,
{
    if n == 0 {
        1
    } else {
        16 * pow16((n - 1) as nat)
    }
}

pub proof fn lemma_hex_value_of_digit(d: int)
    requires
        0 <= d < 16,
    ensures
        hex_value(hex_digit(d)) == Some(d as nat),
{
}

/// The hexadecimal digits of `v` write `v` modulo `16` to the power of
/// their number.
pub proof fn lemma_hex_number_of_digits(v: nat, n: nat)
    ensures
        hex_number(hex_digits(v, n)) == Some(v % pow16(n)),
    decreases n,
{
    if n > 0 {
        let d = hex_digits(v, n);
        lemma_hex_number_of_digits(v / 16, (n - 1) as nat);
        assert(d.drop_last() =~= hex_digits(v / 16, (n - 1) as nat));
        lemma_hex_value_of_digit((v % 16) as int);
        let p = pow16((n - 1) as nat);
        lemma_pow16_positive((n - 1) as nat);
        vstd::arithmetic::div_mod::lemma_breakdown(v as int, 16, p as int);
    }
}

pub proof fn lemma_pow16_positive(n: nat)
    ensures
        pow16(n) > 0,
    decreases n,
{
    if n > 0 {
        lemma_pow16_positive((n - 1) as nat);
    }
}

/// `uuid::Uuid::parse_str` reads the hyphenated text of a UUID back as that UUID.
pub proof fn lemma_parse_hyphenated(u: u128)
    ensures
        uuid_from_text(hyphenated_text(u)) == Some(u),
{
    let t = hyphenated_text(u);
    let d = hex_digits(u as nat, 32);
    lemma_hex_digits(u as nat, 32);
    lemma_hyphenated_text(u);
    assert(without_hyphens(t) =~= d);
    lemma_hex_number_of_digits(u as nat, 32);
    reveal_with_fuel(pow16, 33);
    assert(pow16(32) == 0x1_0000_0000_0000_0000_0000_0000_0000_0000nat);
    vstd::arithmetic::div_mod::lemma_small_mod(u as nat, pow16(32));
}

/// The digits of a hexadecimal text are never `-` or `,`.
pub proof fn lemma_hex_digits(v: nat, n: nat)
    ensures
        hex_digits(v, n).len() == n,
        forall|i: int| 0 <= i < n ==> #[trigger] hex_digits(v, n)[i] != ',',
    decreases n,
{
    if n > 0 {
        lemma_hex_digits(v / 16, (n - 1) as nat);
    }
}

/// The hyphenated text of a UUID is 36 characters long and holds no comma.
pub proof fn lemma_hyphenated_text(u: u128)
    ensures
        hyphenated_text(u).len() == 36,
        forall|i: int| 0 <= i < 36 ==> #[trigger] hyphenated_text(u)[i] != ',',
{
    let d = hex_digits(u as nat, 32);
    lemma_hex_digits(u as nat, 32);
    let t = hyphenated_text(u);
    assert forall|i: int| 0 <= i < 36 implies #[trigger] t[i] != ',' by {
        if i < 8 {
            assert(t[i] == d[i]);
        } else if i == 8 {
        } else if i < 13 {
            assert(t[i] == d[i - 1]);
        } else if i == 13 {
        } else if i < 18 {
            assert(t[i] == d[i - 2]);
        } else if i == 18 {
        } else if i < 23 {
            assert(t[i] == d[i - 3]);
        } else if i == 23 {
        } else {
            assert(t[i] == d[i - 4]);
        }
    }
}

} // verus!
