//! Random identifiers: the 128 bits of a UUID, and its text form.

use vstd::arithmetic::power::pow;
use vstd::prelude::*;

verus! {

/// The error of the `uuid` crate for a text that is no UUID. Carried, never
/// looked into.
#[verifier::external_type_specification]
#[verifier::external_body]
pub struct ExUuidError(uuid::Error);

/// A text that should have been an identifier and is not.
#[derive(Clone, Copy, Debug, PartialEq, Eq, Structural)]
pub struct InvalidId;

/// The lower-case hexadecimal digit of `n`.
pub open spec fn hex_digit(n: int) -> char {
    if n < 10 {
        (48 + n) as char
    } else {
        (87 + n) as char
    }
}

/// The hexadecimal digit at place `k` of 32, counted from the most significant.
pub open spec fn nibble(bits: u128, k: int) -> int {
    (bits as int / pow(16, (31 - k) as nat)) % 16
}

/// The hyphenated text of a UUID: 32 lower-case hexadecimal digits in groups of
/// eight, four, four, four and twelve.
pub open spec fn uuid_text(bits: u128) -> Seq<char> {
    Seq::new(
        36,
        |i: int|
            if i == 8 || i == 13 || i == 18 || i == 23 {
                '-'
            } else if i < 8 {
                hex_digit(nibble(bits, i))
            } else if i < 13 {
                hex_digit(nibble(bits, i - 1))
            } else if i < 18 {
                hex_digit(nibble(bits, i - 2))
            } else if i < 23 {
                hex_digit(nibble(bits, i - 3))
            } else {
                hex_digit(nibble(bits, i - 4))
            },
    )
}

/// Whether `bits` carry the version of a random UUID and the standard variant.
pub open spec fn is_random_uuid(bits: u128) -> bool {
    (bits >> 76) & 0xf == 4 && (bits >> 62) & 0x3 == 2
}

/// What `uuid::Uuid::parse_str` makes of a text: the bits of the UUID, or
/// nothing where the text is none.
pub uninterp spec fn uuid_parsed(s: Seq<char>) -> Option<u128>;

/// `uuid::Uuid::new_v4`: a fresh random UUID, as its 128 bits. Two calls give
/// unrelated values; every one carries version four and the standard variant.
#[verifier::external_body]
pub(crate) fn random_uuid() -> (bits: u128)
    ensures
        is_random_uuid(bits),
{
    uuid::Uuid::new_v4().as_u128()
}

/// `uuid::Uuid::parse_str`: reads any of the text forms of a UUID. Which texts
/// those are is not stated, only that the outcome depends on the text alone.
#[verifier::external_body]
pub(crate) fn parse_uuid(raw: &str) -> (out: Result<u128, uuid::Error>)
    ensures
        match out {
            Ok(bits) => uuid_parsed(raw@) == Some(bits),
            Err(_) => uuid_parsed(raw@) is None,
        },
{
    uuid::Uuid::parse_str(raw).map(|id| id.as_u128())
}

/// `uuid::Uuid`'s `Display`: the hyphenated text in lower case, which
/// `uuid::Uuid::parse_str` reads back as the same UUID.
#[verifier::external_body]
pub(crate) fn uuid_string(bits: u128) -> (out: String)
    ensures
        out@ == uuid_text(bits),
        uuid_parsed(out@) == Some(bits),
{
    uuid::Uuid::from_u128(bits).to_string()
}

/// Reads an identifier.
pub fn parse_id(raw: &str) -> (out: Result<u128, InvalidId>)
    ensures
        match out {
            Ok(bits) => uuid_parsed(raw@) == Some(bits),
            Err(_) => uuid_parsed(raw@) is None,
        },
{
    match parse_uuid(raw) {
        Ok(bits) => Ok(bits),
        Err(_) => Err(InvalidId),
    }
}

proof fn lemma_hex_digit_injective(m: int, n: int)
    requires
        0 <= m < 16,
        0 <= n < 16,
        hex_digit(m) == hex_digit(n),
    ensures
        m == n,
{
}

proof fn lemma_same_digit(a: u128, b: u128, k: int)
    requires
        uuid_text(a) == uuid_text(b),
        0 <= k < 32,
    ensures
        nibble(a, k) == nibble(b, k),
{
    let i = if k < 8 {
        k
    } else if k < 12 {
        k + 1
    } else if k < 16 {
        k + 2
    } else if k < 20 {
        k + 3
    } else {
        k + 4
    };
    assert(uuid_text(a)[i] == hex_digit(nibble(a, k)));
    assert(uuid_text(b)[i] == hex_digit(nibble(b, k)));
    lemma_hex_digit_injective(nibble(a, k), nibble(b, k));
}

proof fn lemma_same_leading_digits(a: u128, b: u128, j: nat)
    requires
        uuid_text(a) == uuid_text(b),
        j <= 32,
    ensures
        a as int / pow(16, j) == b as int / pow(16, j),
    decreases 32 - j,
{
    if j == 32 {
        assert(pow(16, 32) == 0x1_0000_0000_0000_0000_0000_0000_0000_0000) by {
            reveal_with_fuel(pow, 33);
        }
    } else {
        let unit = pow(16, j);
        lemma_same_leading_digits(a, b, j + 1);
        lemma_same_digit(a, b, 31 - j);
        assert(pow(16, j + 1) == 16 * unit) by {
            reveal(pow);
        }
        vstd::arithmetic::power::lemma_pow_positive(16, j);
        vstd::arithmetic::div_mod::lemma_div_denominator(a as int, unit, 16);
        vstd::arithmetic::div_mod::lemma_div_denominator(b as int, unit, 16);
        assert(unit * 16 == 16 * unit);
        vstd::arithmetic::div_mod::lemma_fundamental_div_mod(a as int / unit, 16);
        vstd::arithmetic::div_mod::lemma_fundamental_div_mod(b as int / unit, 16);
    }
}

/// The text of an identifier has nothing in it that means something in a path.
pub proof fn lemma_uuid_text_is_plain(bits: u128)
    ensures
        uuid_text(bits).len() == 36,
        uuid_text(bits)[0] != '/',
        !uuid_text(bits).contains('/'),
        !uuid_text(bits).contains('.'),
{
    let plain = uuid_text(bits);
    assert forall|i: int| 0 <= i < 36 implies plain[i] != '/' && plain[i] != '.' by {
        let k = if i < 8 {
            i
        } else if i < 13 {
            i - 1
        } else if i < 18 {
            i - 2
        } else if i < 23 {
            i - 3
        } else {
            i - 4
        };
        let n = nibble(bits, k);
        assert(0 <= n < 16);
        assert(hex_digit(n) != '/' && hex_digit(n) != '.');
        assert(plain[i] == '-' || plain[i] == hex_digit(n));
    }
}

/// Law: the text of an identifier identifies it. Two identifiers with the same
/// text are the same, so no two of them share a file name.
pub proof fn law_uuid_text_is_injective(a: u128, b: u128)
    requires
        uuid_text(a) == uuid_text(b),
    ensures
        a == b,
{
    lemma_same_leading_digits(a, b, 0);
    assert(pow(16, 0) == 1) by {
        reveal(pow);
    }
}

} // verus!
