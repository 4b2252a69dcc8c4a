//! Hashing and text encodings shared by the commitment tree and the block header.
//!
//! SHA-256 itself is not modelled: `sha256` names the digest that the `sha2`
//! crate computes, and everything else in the library is stated relative to it.

use sha2::Digest;
use vstd::prelude::*;

verus! {

/// Number of bytes in a SHA-256 digest.
pub const DIGEST_LEN: usize = 32;

/// Number of hexadecimal characters in the display form of a digest.
pub const DIGEST_HEX_LEN: usize = 64;

/// The SHA-256 digest of `data`.
pub uninterp spec fn sha256(data: Seq<u8>) -> Seq<u8>;

/// The lowercase hexadecimal digit for a value below sixteen.
pub open spec fn hex_digit(nibble: int) -> char {
    seq!['0', '1', '2', '3', '4', '5', '6', '7', '8', '9', 'a', 'b', 'c', 'd', 'e', 'f'][nibble]
}

/// Lowercase hexadecimal form of a byte string: two digits per byte, high
/// nibble first.
pub open spec fn hex_encode(bytes: Seq<u8>) -> Seq<char> {
    Seq::new(
        2 * bytes.len(),
        |i: int|
            if i % 2 == 0 {
                hex_digit(bytes[i / 2] as int / 16)
            } else {
                hex_digit(bytes[i / 2] as int % 16)
            },
    )
}

/// The decimal digit for a value below ten.
pub open spec fn decimal_digit(value: nat) -> char {
    seq!['0', '1', '2', '3', '4', '5', '6', '7', '8', '9'][value as int]
}

/// Decimal form of a natural number, without leading zeros.
pub open spec fn decimal(value: nat) -> Seq<char>
    decreases value,
{
    if value < 10 {
        seq![decimal_digit(value)]
    } else {
        decimal(value / 10).push(decimal_digit(value % 10))
    }
}

/// Decimal form of a signed number: a minus sign in front of negative values.
pub open spec fn signed_decimal(value: int) -> Seq<char> {
    if value < 0 {
        seq!['-'] + decimal((-value) as nat)
    } else {
        decimal(value as nat)
    }
}

/// Calls `sha2::Sha256::digest`. Trusted: the result is the digest named by
/// `sha256`, and it is 32 bytes long.
#[verifier::external_body]
pub(crate) fn sha256_bytes(data: &[u8]) -> (digest: Vec<u8>)
    ensures
        digest@ == sha256(data@),
        digest@.len() == DIGEST_LEN,
{
    sha2::Sha256::digest(data).to_vec()
}

/// Calls `hex::encode`. Trusted: every byte becomes two lowercase hexadecimal
/// digits, high nibble first.
#[verifier::external_body]
pub(crate) fn hex_text(bytes: &[u8]) -> (text: String)
    ensures
        text@ == hex_encode(bytes@),
{
    hex::encode(bytes)
}

/// The text of one decimal digit.
fn digit_text(value: u64) -> (text: &'static str)
    requires
        value < 10,
    ensures
        text@ == seq![decimal_digit(value as nat)],
{
    proof {
        reveal_strlit("0");
        reveal_strlit("1");
        reveal_strlit("2");
        reveal_strlit("3");
        reveal_strlit("4");
        reveal_strlit("5");
        reveal_strlit("6");
        reveal_strlit("7");
        reveal_strlit("8");
        reveal_strlit("9");
    }
    let text = if value == 0 {
        "0"
    } else if value == 1 {
        "1"
    } else if value == 2 {
        "2"
    } else if value == 3 {
        "3"
    } else if value == 4 {
        "4"
    } else if value == 5 {
        "5"
    } else if value == 6 {
        "6"
    } else if value == 7 {
        "7"
    } else if value == 8 {
        "8"
    } else {
        "9"
    };
    assert(text@ =~= seq![decimal_digit(value as nat)]);
    text
}

/// The decimal form of a number.
pub fn decimal_text(value: u64) -> (text: String)
    ensures
        text@ == decimal(value as nat),
    decreases value,
{
    if value < 10 {
        String::from_str(digit_text(value))
    } else {
        let mut text = decimal_text(value / 10);
        text.append(digit_text(value % 10));
        assert(text@ =~= decimal(value as nat));
        text
    }
}

/// The decimal form of a signed number, with a minus sign in front of a
/// negative one.
pub fn signed_decimal_text(value: i64) -> (text: String)
    ensures
        text@ == signed_decimal(value as int),
{
    if value >= 0 {
        decimal_text(value as u64)
    } else {
        let magnitude: u64 = if value == i64::MIN {
            9223372036854775808
        } else {
            (-value) as u64
        };
        proof {
            reveal_strlit("-");
        }
        let mut text = String::from_str("-");
        let digits = decimal_text(magnitude);
        text.append(digits.as_str());
        assert(text@ =~= signed_decimal(value as int));
        text
    }
}

/// Calls `chrono::Utc::now` and `DateTime::timestamp`: the whole seconds that
/// the system clock counts since the start of 1970. Nothing is promised of
/// the number, which is whatever the clock says.
#[verifier::external_body]
pub(crate) fn current_timestamp() -> (seconds: i64) {
    chrono::Utc::now().timestamp()
}

/// Digest of a text: SHA-256 over its UTF-8 bytes.
pub open spec fn text_digest(text: Seq<char>) -> Seq<u8> {
    sha256(vstd::utf8::encode_utf8(text))
}

/// Hashes the UTF-8 bytes of `text`.
pub fn digest_of_text(text: &str) -> (digest: Vec<u8>)
    ensures
        digest@ == text_digest(text@),
        digest@.len() == DIGEST_LEN,
{
    sha256_bytes(text.as_bytes())
}

/// Digest of two byte strings joined end to end.
pub open spec fn pair_digest(left: Seq<u8>, right: Seq<u8>) -> Seq<u8> {
    sha256(left + right)
}

/// Hashes `left` followed by `right`.
pub fn digest_of_pair(left: &[u8], right: &[u8]) -> (digest: Vec<u8>)
    ensures
        digest@ == pair_digest(left@, right@),
        digest@.len() == DIGEST_LEN,
{
    let mut joined: Vec<u8> = Vec::new();
    let mut i: usize = 0;
    while i < left.len()
        invariant
            i <= left@.len(),
            joined@ == left@.take(i as int),
        decreases left@.len() - i,
    {
        joined.push(left[i]);
        i += 1;
    }
    let mut j: usize = 0;
    while j < right.len()
        invariant
            j <= right@.len(),
            joined@ == left@ + right@.take(j as int),
        decreases right@.len() - j,
    {
        joined.push(right[j]);
        j += 1;
    }
    assert(left@ + right@.take(right@.len() as int) == left@ + right@);
    sha256_bytes(joined.as_slice())
}

/// Different values below sixteen have different hexadecimal digits.
pub proof fn hex_digit_injective(first: int, second: int)
    requires
        0 <= first < 16,
        0 <= second < 16,
        hex_digit(first) == hex_digit(second),
    ensures
        first == second,
{
}

/// Different byte strings have different hexadecimal forms.
pub proof fn hex_encode_injective(first: Seq<u8>, second: Seq<u8>)
    requires
        hex_encode(first) == hex_encode(second),
    ensures
        first == second,
{
    assert(hex_encode(first).len() == 2 * first.len());
    assert(hex_encode(second).len() == 2 * second.len());
    assert forall|k: int| 0 <= k < first.len() implies first[k] == second[k] by {
        let a = first[k] as int;
        let b = second[k] as int;
        assert(hex_encode(first)[2 * k] == hex_digit(a / 16));
        assert(hex_encode(second)[2 * k] == hex_digit(b / 16));
        assert(hex_encode(first)[2 * k + 1] == hex_digit(a % 16));
        assert(hex_encode(second)[2 * k + 1] == hex_digit(b % 16));
        hex_digit_injective(a / 16, b / 16);
        hex_digit_injective(a % 16, b % 16);
    }
    assert(first =~= second);
}

} // verus!
