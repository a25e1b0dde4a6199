//! Identifiers in their textual form.
use vstd::prelude::*;
use crate::json::hex_digit;

verus! {

/// The hexadecimal digit of `id` at position `k` of 32, the most
/// significant first.
pub open spec fn uuid_nibble(id: u128, k: int) -> int {
    ((id >> ((124 - 4 * k) as u128)) & 15u128) as int
}

/// Whether position `i` of the hyphenated text holds a hyphen.
pub open spec fn uuid_hyphen_at(i: int) -> bool {
    i == 8 || i == 13 || i == 18 || i == 23
}

/// Which of the 32 digits stands at position `i` of the hyphenated text.
pub open spec fn uuid_digit_index(i: int) -> int {
    if i < 8 {
        i
    } else if i < 13 {
        i - 1
    } else if i < 18 {
        i - 2
    } else if i < 23 {
        i - 3
    } else {
        i - 4
    }
}

/// The text of a UUID in its hyphenated lower-case form: the 32
/// hexadecimal digits of its 128-bit value, most significant first, in
/// groups of 8, 4, 4, 4 and 12 joined by hyphens.
pub open spec fn uuid_hyphenated(id: u128) -> Seq<char> {
    Seq::new(
        36,
        |i: int|
            if uuid_hyphen_at(i) {
                '-'
            } else {
                hex_digit(uuid_nibble(id, uuid_digit_index(i)))
            },
    )
}

/// Calls `uuid::Uuid::from_u128` and formats the result with `Display`,
/// which writes the hyphenated lower-case form.
#[verifier::external_body]
pub(crate) fn uuid_text(id: u128) -> (text: String)
    ensures
        text@ == uuid_hyphenated(id),
{
    uuid::Uuid::from_u128(id).to_string()
}

proof fn lemma_nibbles_determine_value(a: u128, b: u128)
    by (bit_vector)
    requires
        (a >> 124u128) & 15u128 == (b >> 124u128) & 15u128,
        (a >> 120u128) & 15u128 == (b >> 120u128) & 15u128,
        (a >> 116u128) & 15u128 == (b >> 116u128) & 15u128,
        (a >> 112u128) & 15u128 == (b >> 112u128) & 15u128,
        (a >> 108u128) & 15u128 == (b >> 108u128) & 15u128,
        (a >> 104u128) & 15u128 == (b >> 104u128) & 15u128,
        (a >> 100u128) & 15u128 == (b >> 100u128) & 15u128,
        (a >> 96u128) & 15u128 == (b >> 96u128) & 15u128,
        (a >> 92u128) & 15u128 == (b >> 92u128) & 15u128,
        (a >> 88u128) & 15u128 == (b >> 88u128) & 15u128,
        (a >> 84u128) & 15u128 == (b >> 84u128) & 15u128,
        (a >> 80u128) & 15u128 == (b >> 80u128) & 15u128,
        (a >> 76u128) & 15u128 == (b >> 76u128) & 15u128,
        (a >> 72u128) & 15u128 == (b >> 72u128) & 15u128,
        (a >> 68u128) & 15u128 == (b >> 68u128) & 15u128,
        (a >> 64u128) & 15u128 == (b >> 64u128) & 15u128,
        (a >> 60u128) & 15u128 == (b >> 60u128) & 15u128,
        (a >> 56u128) & 15u128 == (b >> 56u128) & 15u128,
        (a >> 52u128) & 15u128 == (b >> 52u128) & 15u128,
        (a >> 48u128) & 15u128 == (b >> 48u128) & 15u128,
        (a >> 44u128) & 15u128 == (b >> 44u128) & 15u128,
        (a >> 40u128) & 15u128 == (b >> 40u128) & 15u128,
        (a >> 36u128) & 15u128 == (b >> 36u128) & 15u128,
        (a >> 32u128) & 15u128 == (b >> 32u128) & 15u128,
        (a >> 28u128) & 15u128 == (b >> 28u128) & 15u128,
        (a >> 24u128) & 15u128 == (b >> 24u128) & 15u128,
        (a >> 20u128) & 15u128 == (b >> 20u128) & 15u128,
        (a >> 16u128) & 15u128 == (b >> 16u128) & 15u128,
        (a >> 12u128) & 15u128 == (b >> 12u128) & 15u128,
        (a >> 8u128) & 15u128 == (b >> 8u128) & 15u128,
        (a >> 4u128) & 15u128 == (b >> 4u128) & 15u128,
        (a >> 0u128) & 15u128 == (b >> 0u128) & 15u128,
    ensures
        a == b,
{
}

proof fn lemma_low_nibble(x: u128)
    by (bit_vector)
    ensures
        x & 15u128 < 16,
{
}

proof fn lemma_hex_digit_injective(d: int, e: int)
    requires
        0 <= d < 16,
        0 <= e < 16,
        hex_digit(d) == hex_digit(e),
    ensures
        d == e,
{
}

/// Different ids have different hyphenated texts.
pub proof fn lemma_uuid_text_distinct(a: u128, b: u128)
    requires
        a != b,
    ensures
        uuid_hyphenated(a) != uuid_hyphenated(b),
{
    if uuid_hyphenated(a) == uuid_hyphenated(b) {
        assert forall|k: int| 0 <= k < 32 implies uuid_nibble(a, k) == uuid_nibble(b, k) by {
            let i = if k < 8 {
                k
            } else if k < 12 {
                k + 1
            } else if k < 16 {
                k + 2
            } else if k < 20 {
                k + 3
            } else {
                k + 4
            };
            assert(uuid_digit_index(i) == k);
            assert(uuid_hyphenated(a)[i] == uuid_hyphenated(b)[i]);
            lemma_low_nibble(a >> ((124 - 4 * k) as u128));
            lemma_low_nibble(b >> ((124 - 4 * k) as u128));
            lemma_hex_digit_injective(uuid_nibble(a, k), uuid_nibble(b, k));
        }
        assert(uuid_nibble(a, 0) == uuid_nibble(b, 0));
        assert(uuid_nibble(a, 1) == uuid_nibble(b, 1));
        assert(uuid_nibble(a, 2) == uuid_nibble(b, 2));
        assert(uuid_nibble(a, 3) == uuid_nibble(b, 3));
        assert(uuid_nibble(a, 4) == uuid_nibble(b, 4));
        assert(uuid_nibble(a, 5) == uuid_nibble(b, 5));
        assert(uuid_nibble(a, 6) == uuid_nibble(b, 6));
        assert(uuid_nibble(a, 7) == uuid_nibble(b, 7));
        assert(uuid_nibble(a, 8) == uuid_nibble(b, 8));
        assert(uuid_nibble(a, 9) == uuid_nibble(b, 9));
        assert(uuid_nibble(a, 10) == uuid_nibble(b, 10));
        assert(uuid_nibble(a, 11) == uuid_nibble(b, 11));
        assert(uuid_nibble(a, 12) == uuid_nibble(b, 12));
        assert(uuid_nibble(a, 13) == uuid_nibble(b, 13));
        assert(uuid_nibble(a, 14) == uuid_nibble(b, 14));
        assert(uuid_nibble(a, 15) == uuid_nibble(b, 15));
        assert(uuid_nibble(a, 16) == uuid_nibble(b, 16));
        assert(uuid_nibble(a, 17) == uuid_nibble(b, 17));
        assert(uuid_nibble(a, 18) == uuid_nibble(b, 18));
        assert(uuid_nibble(a, 19) == uuid_nibble(b, 19));
        assert(uuid_nibble(a, 20) == uuid_nibble(b, 20));
        assert(uuid_nibble(a, 21) == uuid_nibble(b, 21));
        assert(uuid_nibble(a, 22) == uuid_nibble(b, 22));
        assert(uuid_nibble(a, 23) == uuid_nibble(b, 23));
        assert(uuid_nibble(a, 24) == uuid_nibble(b, 24));
        assert(uuid_nibble(a, 25) == uuid_nibble(b, 25));
        assert(uuid_nibble(a, 26) == uuid_nibble(b, 26));
        assert(uuid_nibble(a, 27) == uuid_nibble(b, 27));
        assert(uuid_nibble(a, 28) == uuid_nibble(b, 28));
        assert(uuid_nibble(a, 29) == uuid_nibble(b, 29));
        assert(uuid_nibble(a, 30) == uuid_nibble(b, 30));
        assert(uuid_nibble(a, 31) == uuid_nibble(b, 31));
        lemma_nibbles_determine_value(a, b);
    }
}

/// Decimal digit `d`.
pub open spec fn digit_char(d: int) -> char {
    if d == 0 {
        '0'
    } else if d == 1 {
        '1'
    } else if d == 2 {
        '2'
    } else if d == 3 {
        '3'
    } else if d == 4 {
        '4'
    } else if d == 5 {
        '5'
    } else if d == 6 {
        '6'
    } else if d == 7 {
        '7'
    } else if d == 8 {
        '8'
    } else {
        '9'
    }
}

/// The decimal text of `n`, without leading zeros.
pub open spec fn decimal(n: nat) -> Seq<char>
    decreases n,
{
    if n < 10 {
        seq![digit_char(n as int)]
    } else {
        decimal(n / 10).push(digit_char((n % 10) as int))
    }
}

fn digit(d: u64) -> (c: char)
    requires
        d < 10,
    ensures
        c == digit_char(d as int),
{
    match d {
        0 => '0',
        1 => '1',
        2 => '2',
        3 => '3',
        4 => '4',
        5 => '5',
        6 => '6',
        7 => '7',
        8 => '8',
        _ => '9',
    }
}

fn decimal_chars(n: u64) -> (chars: Vec<char>)
    ensures
        chars@ == decimal(n as nat),
    decreases n,
{
    if n < 10 {
        let mut chars: Vec<char> = Vec::new();
        chars.push(digit(n));
        assert(chars@ =~= decimal(n as nat));
        chars
    } else {
        let mut chars = decimal_chars(n / 10);
        chars.push(digit(n % 10));
        chars
    }
}

/// The decimal text of `n`.
pub fn decimal_text(n: u64) -> (text: String)
    ensures
        text@ == decimal(n as nat),
{
    let chars = decimal_chars(n);
    crate::text::string_from_chars(chars.as_slice())
}

} // verus!
