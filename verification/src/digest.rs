//! Short stable names for user keys: the lowercase hexadecimal form of a
//! 64-bit SipHash-2-4 of the key's bytes.

use siphasher::sip::SipHasher;
use vstd::prelude::*;

verus! {

/// The 64-bit SipHash-2-4 of `bytes` under the all-zero key.
pub uninterp spec fn sip24(bytes: Seq<u8>) -> u64;

/// Calls `siphasher::sip::SipHasher::new` and `SipHasher::hash`.
///
/// Trusted: a hasher made by `new` carries the two zero keys and no buffered
/// input, and `hash` on it is a function of the bytes alone.
#[verifier::external_body]
fn sip_hash(bytes: &[u8]) -> (h: u64)
    ensures
        h == sip24(bytes@),
{
    SipHasher::new().hash(bytes)
}

/// The lowercase hexadecimal digit of value `d`.
pub open spec fn hex_char(d: int) -> char {
    if d == 0 {
        '0'
    } else if d == 1 {
        '1'
    } else if d == 2 {
        '2'
    } else if d == 3 {
        '3'
    } else if d == 4 {
        '4'
    } else if d == 5 {
        '5'
    } else if d == 6 {
        '6'
    } else if d == 7 {
        '7'
    } else if d == 8 {
        '8'
    } else if d == 9 {
        '9'
    } else if d == 10 {
        'a'
    } else if d == 11 {
        'b'
    } else if d == 12 {
        'c'
    } else if d == 13 {
        'd'
    } else if d == 14 {
        'e'
    } else {
        'f'
    }
}

/// Whether `c` is one of the sixteen lowercase hexadecimal digits.
pub open spec fn is_hex_char(c: char) -> bool {
    exists|d: int| 0 <= d < 16 && c == #[trigger] hex_char(d)
}

/// `n` written in base sixteen, most significant digit first, without
/// leading zeros; zero is the single digit `0`.
pub open spec fn hex_digits(n: nat) -> Seq<char>
    decreases n,
{
    if n < 16 {
        seq![hex_char(n as int)]
    } else {
        hex_digits(n / 16).push(hex_char((n % 16) as int))
    }
}

/// The digest of a key given by its bytes.
pub open spec fn digest_of(key: Seq<u8>) -> Seq<char> {
    hex_digits(sip24(key) as nat)
}

/// The one-character string of a hexadecimal digit.
fn hex_digit(d: u64) -> (s: &'static str)
    requires
        d < 16,
    ensures
        s@ == seq![hex_char(d as int)],
{
    proof {
        reveal_strlit("0");
        reveal_strlit("1");
        reveal_strlit("2");
        reveal_strlit("3");
        reveal_strlit("4");
        reveal_strlit("5");
        reveal_strlit("6");
        reveal_strlit("7");
        reveal_strlit("8");
        reveal_strlit("9");
        reveal_strlit("a");
        reveal_strlit("b");
        reveal_strlit("c");
        reveal_strlit("d");
        reveal_strlit("e");
        reveal_strlit("f");
    }
    let s = if d == 0 {
        "0"
    } else if d == 1 {
        "1"
    } else if d == 2 {
        "2"
    } else if d == 3 {
        "3"
    } else if d == 4 {
        "4"
    } else if d == 5 {
        "5"
    } else if d == 6 {
        "6"
    } else if d == 7 {
        "7"
    } else if d == 8 {
        "8"
    } else if d == 9 {
        "9"
    } else if d == 10 {
        "a"
    } else if d == 11 {
        "b"
    } else if d == 12 {
        "c"
    } else if d == 13 {
        "d"
    } else if d == 14 {
        "e"
    } else {
        "f"
    };
    s
}

/// Appends the hexadecimal form of `h` to `out`.
fn push_hex(out: &mut String, h: u64)
    ensures
        final(out)@ == old(out)@ + hex_digits(h as nat),
    decreases h,
{
    if h >= 16 {
        push_hex(out, h / 16);
    }
    out.append(hex_digit(h % 16));
}

/// Formats a hash value the way a digest is written: lowercase hexadecimal,
/// no prefix, no padding.
pub fn hex_digest(h: u64) -> (s: String)
    ensures
        s@ == hex_digits(h as nat),
{
    let mut s = String::new();
    push_hex(&mut s, h);
    s
}

/// The digest under which a user key is stored.
pub fn key_digest(key: &[u8]) -> (d: String)
    ensures
        d@ == digest_of(key@),
{
    hex_digest(sip_hash(key))
}

} // verus!
