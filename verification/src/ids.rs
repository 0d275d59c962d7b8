//! Job identities: 128-bit ULIDs and their 26-character text.
use crate::text::{
    bytes_precede, text_order_is_irreflexive, text_order_is_transitive, text_precedes,
};
use vstd::arithmetic::power::{lemma_pow0, lemma_pow1, lemma_pow_adds, lemma_pow_positive, pow};
use vstd::prelude::*;
use vstd::utf8::{encode_utf8, is_ascii_chars};

verus! {

/// A ULID: one public 128-bit value.
#[verifier::external_type_specification]
pub struct ExUlid(ulid::Ulid);

/// Draws a fresh identity: `ulid::Ulid::new`, from the clock and random bits, so
/// nothing is claimed of its value.
pub assume_specification[ ulid::Ulid::new ]() -> (r: ulid::Ulid)
;

/// Whether two identities are the same.
pub fn same_id(a: ulid::Ulid, b: ulid::Ulid) -> (r: bool)
    ensures
        r == (a == b),
{
    a.0 == b.0
}

/// The character of a base-32 digit: `0` to `9`, then the letters without `I`,
/// `L`, `O`, and `U`.
pub open spec fn base32_char(digit: int) -> char {
    if digit < 10 {
        ('0' as u32 + digit) as char
    } else if digit < 18 {
        ('A' as u32 + (digit - 10)) as char
    } else if digit < 20 {
        ('J' as u32 + (digit - 18)) as char
    } else if digit < 22 {
        ('M' as u32 + (digit - 20)) as char
    } else if digit < 27 {
        ('P' as u32 + (digit - 22)) as char
    } else {
        ('V' as u32 + (digit - 27)) as char
    }
}

/// The base-32 digit of a character, in either case; `None` for any other
/// character.
pub open spec fn base32_digit(c: char) -> Option<int> {
    let code = c as u32 as int;
    let upper = if 97 <= code <= 122 {
        code - 32
    } else {
        code
    };
    if 48 <= code <= 57 {
        Some(code - 48)
    } else if 65 <= upper <= 72 {
        Some(upper - 65 + 10)
    } else if 74 <= upper <= 75 {
        Some(upper - 74 + 18)
    } else if 77 <= upper <= 78 {
        Some(upper - 77 + 20)
    } else if 80 <= upper <= 84 {
        Some(upper - 80 + 22)
    } else if 86 <= upper <= 90 {
        Some(upper - 86 + 27)
    } else {
        None
    }
}

/// The text of an identity: its 26 base-32 digits, most significant first.
pub open spec fn ulid_text(bits: u128) -> Seq<char> {
    Seq::new(26, |i: int| base32_char((bits as int / pow(32, (25 - i) as nat)) % 32))
}

/// Whether a text is 26 base-32 digits.
pub open spec fn is_ulid_text(text: Seq<char>) -> bool {
    text.len() == 26 && forall|i: int|
        0 <= i < text.len() ==> base32_digit(#[trigger] text[i]) is Some
}

/// The value of a digit string, keeping its low 128 bits.
pub open spec fn ulid_bits(text: Seq<char>) -> int
    decreases text.len(),
{
    if text.len() == 0 {
        0
    } else {
        (ulid_bits(text.drop_last()) * 32 + base32_digit(text.last()).unwrap())
            % (u128::MAX + 1)
    }
}

/// Renders an identity: `ulid::Ulid::to_string`, its 26 base-32 digits.
#[verifier::external_body]
pub(crate) fn id_text(id: ulid::Ulid) -> (r: String)
    ensures
        r@ == ulid_text(id.0),
{
    id.to_string()
}

/// Parses an identity: `ulid::Ulid::from_string`.
///
/// It accepts exactly the texts of 26 base-32 digits in either case; bits beyond
/// the low 128 are dropped. Which of the two parse errors a refused text gives is
/// not kept.
#[verifier::external_body]
pub(crate) fn id_from_text(text: &str) -> (r: Option<ulid::Ulid>)
    ensures
        r is Some <==> is_ulid_text(text@),
        r matches Some(id) ==> id.0 == ulid_bits(text@),
{
    ulid::Ulid::from_string(text).ok()
}

proof fn lemma_digit_round_trip(digit: int)
    requires
        0 <= digit < 32,
    ensures
        base32_digit(base32_char(digit)) == Some(digit),
{
}

/// Dividing by a power of 32 drops one more digit than the next smaller power.
proof fn lemma_digit_step(bits: int, k: nat)
    requires
        0 <= bits,
    ensures
        bits / pow(32, k) == (bits / pow(32, k + 1)) * 32 + (bits / pow(32, k)) % 32,
{
    lemma_pow_positive(32, k);
    lemma_pow1(32);
    lemma_pow_adds(32, k, 1);
    vstd::arithmetic::div_mod::lemma_div_denominator(bits, pow(32, k), 32);
    let q = bits / pow(32, k);
    assert(q == (q / 32) * 32 + q % 32);
}

proof fn lemma_prefix_bits(bits: u128, k: nat)
    requires
        k <= 26,
    ensures
        ulid_bits(ulid_text(bits).take(k as int)) == bits as int / pow(32, (26 - k) as nat),
    decreases k,
{
    let text = ulid_text(bits);
    if k == 0 {
        lemma_pow_positive(32, 26);
        lemma_pow0(32);
        assert(pow(32, 26) > bits) by {
            lemma_pow_adds(32, 13, 13);
            reveal_with_fuel(pow, 14);
            assert(pow(32, 13) == 0x2_0000_0000_0000_0000);
        }
        vstd::arithmetic::div_mod::lemma_basic_div(bits as int, pow(32, 26));
    } else {
        let head = text.take(k as int);
        assert(head.drop_last() =~= text.take(k - 1));
        lemma_prefix_bits(bits, (k - 1) as nat);
        let e = (26 - k) as nat;
        lemma_digit_step(bits as int, e);
        lemma_pow_positive(32, e);
        let digit = (bits as int / pow(32, e)) % 32;
        assert(head.last() == base32_char(digit));
        lemma_digit_round_trip(digit);
        let value = bits as int / pow(32, e);
        assert(0 <= value <= bits) by {
            vstd::arithmetic::div_mod::lemma_div_pos_is_pos(bits as int, pow(32, e));
            vstd::arithmetic::div_mod::lemma_div_nonincreasing(bits as int, pow(32, e));
        }
        vstd::arithmetic::div_mod::lemma_small_mod(
            value as nat,
            (u128::MAX + 1) as nat,
        );
    }
}

/// An identity's text is accepted and reads back as the identity.
pub proof fn id_text_reads_back(bits: u128)
    ensures
        is_ulid_text(ulid_text(bits)),
        ulid_bits(ulid_text(bits)) == bits,
{
    let text = ulid_text(bits);
    assert forall|i: int| 0 <= i < text.len() implies base32_digit(#[trigger] text[i]) is Some by {
        lemma_pow_positive(32, (25 - i) as nat);
        lemma_digit_round_trip((bits as int / pow(32, (25 - i) as nat)) % 32);
    }
    lemma_prefix_bits(bits, 26);
    assert(text.take(26) =~= text);
    lemma_pow0(32);
}

proof fn lemma_precedes_at(x: Seq<u8>, y: Seq<u8>, at: int)
    requires
        0 <= at < x.len(),
        at < y.len(),
        forall|j: int| 0 <= j < at ==> x[j] == y[j],
        x[at] < y[at],
    ensures
        bytes_precede(x, y),
    decreases at,
{
    if at > 0 {
        assert(x[0] == y[0]);
        let p = x.drop_first();
        let q = y.drop_first();
        assert forall|j: int| 0 <= j < at - 1 implies p[j] == q[j] by {
            assert(p[j] == x[j + 1] && q[j] == y[j + 1]);
        }
        lemma_precedes_at(p, q, at - 1);
    }
}

proof fn lemma_text_bytes(bits: u128)
    ensures
        encode_utf8(ulid_text(bits)).len() == 26,
        forall|i: int|
            0 <= i < 26 ==> #[trigger] encode_utf8(ulid_text(bits))[i] == ulid_text(bits)[i] as u8
                && (ulid_text(bits)[i] as u32) < 128,
{
    let text = ulid_text(bits);
    assert forall|i: int| 0 <= i < text.len() implies (#[trigger] text[i] as u32) < 128 by {
        lemma_pow_positive(32, (25 - i) as nat);
        let digit = (bits as int / pow(32, (25 - i) as nat)) % 32;
        assert(text[i] == base32_char(digit));
    }
    assert(is_ascii_chars(text));
    vstd::utf8::is_ascii_chars_encode_utf8(text);
}

proof fn lemma_smaller_id_first(a: u128, b: u128, k: int)
    requires
        a < b,
        0 <= k <= 26,
        forall|j: int| 0 <= j < k ==> ulid_text(a)[j] == ulid_text(b)[j],
    ensures
        text_precedes(ulid_text(a), ulid_text(b)),
    decreases 26 - k,
{
    let x = ulid_text(a);
    let y = ulid_text(b);
    assert(x.take(k) =~= y.take(k));
    lemma_prefix_bits(a, k as nat);
    lemma_prefix_bits(b, k as nat);
    lemma_pow0(32);
    if k < 26 {
        let e = (25 - k) as nat;
        lemma_digit_step(a as int, e);
        lemma_digit_step(b as int, e);
        lemma_pow_positive(32, e);
        vstd::arithmetic::div_mod::lemma_div_is_ordered(a as int, b as int, pow(32, e));
        let da = (a as int / pow(32, e)) % 32;
        let db = (b as int / pow(32, e)) % 32;
        assert(da <= db);
        assert(x[k] == base32_char(da) && y[k] == base32_char(db));
        if da == db {
            lemma_smaller_id_first(a, b, k + 1);
        } else {
            lemma_text_bytes(a);
            lemma_text_bytes(b);
            let p = encode_utf8(x);
            let q = encode_utf8(y);
            assert((x[k] as u32) < (y[k] as u32));
            assert(p[k] == x[k] as u8 && q[k] == y[k] as u8);
            assert forall|j: int| 0 <= j < k implies p[j] == q[j] by {
                assert(p[j] == x[j] as u8 && q[j] == y[j] as u8);
            }
            lemma_precedes_at(p, q, k);
        }
    }
}

/// Identities sort alike by value and by text, so ordering jobs by identity is the
/// same whether the storage compares numbers or texts.
pub proof fn id_order_is_text_order(a: u128, b: u128)
    ensures
        a < b <==> text_precedes(ulid_text(a), ulid_text(b)),
{
    if a < b {
        lemma_smaller_id_first(a, b, 0);
    } else {
        text_order_is_irreflexive(ulid_text(a));
        if b < a {
            lemma_smaller_id_first(b, a, 0);
            if text_precedes(ulid_text(a), ulid_text(b)) {
                text_order_is_transitive(ulid_text(a), ulid_text(b), ulid_text(a));
            }
        }
    }
}

} // verus!
