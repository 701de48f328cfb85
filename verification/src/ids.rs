//! Random identifiers: 128-bit values drawn as version 4 UUIDs, and their
//! text.

use crate::text::digit;
use vstd::prelude::*;
use vstd::string::*;

verus! {

/// Whether a 128-bit value has the version and variant fields of a random
/// (version 4) UUID.
pub open spec fn is_random_uuid(id: u128) -> bool {
    (id >> 76u128) & 0xfu128 == 4u128 && (id >> 62u128) & 0x3u128 == 2u128
}

/// Trusted: `uuid::Uuid::new_v4`, read as a 128-bit number by
/// `Uuid::as_u128`. The contract claims only what holds of every draw: the
/// version field is 4 and the variant field is binary 10.
#[verifier::external_body]
pub(crate) fn fresh_uuid() -> (id: u128)
    ensures
        is_random_uuid(id),
{
    uuid::Uuid::new_v4().as_u128()
}

/// The character of a hexadecimal digit, in lower case.
pub open spec fn hex_digit(d: int) -> char {
    if d < 10 {
        digit(d)
    } else if d == 10 {
        'a'
    } else if d == 11 {
        'b'
    } else if d == 12 {
        'c'
    } else if d == 13 {
        'd'
    } else if d == 14 {
        'e'
    } else {
        'f'
    }
}

/// The hexadecimal digit of `id` at place `i`, counted from the most
/// significant of its 32 digits.
pub open spec fn hex_at(id: u128, i: int) -> int {
    ((id >> (((31 - i) * 4) as u128)) & 0xfu128) as int
}

/// Whether a hyphen stands before the digit at place `i`.
pub open spec fn hyphen_before(i: int) -> bool {
    i == 8 || i == 12 || i == 16 || i == 20
}

/// The text of the first `n` digits of `id`, with the hyphens between
/// them.
pub open spec fn hex_prefix(id: u128, n: nat) -> Seq<char>
    decreases n,
{
    if n == 0 {
        Seq::empty()
    } else {
        let i = (n - 1) as int;
        let hyphen = if hyphen_before(i) {
            seq!['-']
        } else {
            Seq::empty()
        };
        hex_prefix(id, (n - 1) as nat) + hyphen + seq![hex_digit(hex_at(id, i))]
    }
}

/// The text of an identifier: its 32 hexadecimal digits in lower case,
/// most significant first, in groups of 8, 4, 4, 4 and 12 digits
/// separated by hyphens.
pub open spec fn hyphenated(id: u128) -> Seq<char> {
    hex_prefix(id, 32)
}

fn hex_str(d: u8) -> (s: &'static str)
    requires
        d < 16,
    ensures
        s@ == seq![hex_digit(d as int)],
{
    proof {
        reveal_strlit("0");
        reveal_strlit("1");
        reveal_strlit("2");
        reveal_strlit("3");
        reveal_strlit("4");
        reveal_strlit("5");
        reveal_strlit("6");
        reveal_strlit("7");
        reveal_strlit("8");
        reveal_strlit("9");
        reveal_strlit("a");
        reveal_strlit("b");
        reveal_strlit("c");
        reveal_strlit("d");
        reveal_strlit("e");
        reveal_strlit("f");
    }
    let s = if d == 0 {
        "0"
    } else if d == 1 {
        "1"
    } else if d == 2 {
        "2"
    } else if d == 3 {
        "3"
    } else if d == 4 {
        "4"
    } else if d == 5 {
        "5"
    } else if d == 6 {
        "6"
    } else if d == 7 {
        "7"
    } else if d == 8 {
        "8"
    } else if d == 9 {
        "9"
    } else if d == 10 {
        "a"
    } else if d == 11 {
        "b"
    } else if d == 12 {
        "c"
    } else if d == 13 {
        "d"
    } else if d == 14 {
        "e"
    } else {
        "f"
    };
    assert(s@ =~= seq![hex_digit(d as int)]);
    s
}

/// Writes an identifier as text.
pub fn uuid_text(id: u128) -> (text: String)
    ensures
        text@ == hyphenated(id),
{
    let mut text = String::new();
    let mut i: u32 = 0;
    while i < 32
        invariant
            i <= 32,
            text@ == hex_prefix(id, i as nat),
        decreases 32 - i,
    {
        let ghost before = text@;
        if i == 8 || i == 12 || i == 16 || i == 20 {
            proof {
                reveal_strlit("-");
            }
            text.append("-");
            assert(text@ =~= before + seq!['-']);
        } else {
            assert(text@ =~= before + Seq::<char>::empty());
        }
        let shift: u32 = (31 - i) * 4;
        let d: u128 = (id >> shift) & 0xf;
        assert(d < 16) by (bit_vector)
            requires
                d == (id >> shift) & 0xf,
        ;
        assert(d as int == hex_at(id, i as int));
        text.append(hex_str(d as u8));
        i += 1;
    }
    text
}

} // verus!
