//! Test helpers: the ciphersuites tests run over, and hexadecimal strings as
//! test vectors write byte strings.

use vstd::prelude::*;
use vstd::string::StringExecFns;

use crate::ciphersuite::{Ciphersuite, CiphersuiteName};

verus! {

/// The ciphersuites that tests run over: those the rust-crypto backend
/// supports.
pub fn ciphersuites() -> (v: Vec<Ciphersuite>)
    ensures
        v@ == seq![
            Ciphersuite { name: CiphersuiteName::MLS10_128_DHKEMX25519_AES128GCM_SHA256_Ed25519 },
            Ciphersuite { name: CiphersuiteName::MLS10_128_DHKEMP256_AES128GCM_SHA256_P256 },
            Ciphersuite {
                name: CiphersuiteName::MLS10_128_DHKEMX25519_CHACHA20POLY1305_SHA256_Ed25519,
            },
        ],
{
    let v = vec![
        Ciphersuite::new(CiphersuiteName::MLS10_128_DHKEMX25519_AES128GCM_SHA256_Ed25519),
        Ciphersuite::new(CiphersuiteName::MLS10_128_DHKEMP256_AES128GCM_SHA256_P256),
        Ciphersuite::new(CiphersuiteName::MLS10_128_DHKEMX25519_CHACHA20POLY1305_SHA256_Ed25519),
    ];
    assert(v@ =~= seq![
        Ciphersuite { name: CiphersuiteName::MLS10_128_DHKEMX25519_AES128GCM_SHA256_Ed25519 },
        Ciphersuite { name: CiphersuiteName::MLS10_128_DHKEMP256_AES128GCM_SHA256_P256 },
        Ciphersuite {
            name: CiphersuiteName::MLS10_128_DHKEMX25519_CHACHA20POLY1305_SHA256_Ed25519,
        },
    ]);
    v
}

/// The upper-case hexadecimal digit of `n` (below 16).
pub open spec fn hex_digit(n: int) -> char {
    if n < 10 {
        (48 + n) as char
    } else {
        (55 + n) as char
    }
}

/// The upper-case hexadecimal string of `bytes`: two digits per byte, the
/// high nibble first.
pub open spec fn hex_string(bytes: Seq<u8>) -> Seq<char> {
    Seq::new(
        2 * bytes.len(),
        |i: int|
            if i % 2 == 0 {
                hex_digit(bytes[i / 2] as int / 16)
            } else {
                hex_digit(bytes[i / 2] as int % 16)
            },
    )
}

/// Whether `c` is a hexadecimal digit, upper or lower case.
pub open spec fn is_hex_digit(c: char) -> bool {
    ('0' <= c && c <= '9') || ('a' <= c && c <= 'f') || ('A' <= c && c <= 'F')
}

/// The value of a hexadecimal digit.
pub open spec fn hex_value(c: char) -> int {
    if '0' <= c && c <= '9' {
        c as int - 48
    } else if 'a' <= c && c <= 'f' {
        c as int - 87
    } else {
        c as int - 55
    }
}

/// Whether `s` is an even number of hexadecimal digits.
pub open spec fn is_hex_string(s: Seq<char>) -> bool {
    &&& s.len() % 2 == 0
    &&& forall|i: int| 0 <= i < s.len() ==> #[trigger] is_hex_digit(s[i])
}

/// The bytes a hexadecimal string of even length stands for.
pub open spec fn hex_bytes(s: Seq<char>) -> Seq<u8> {
    Seq::new(
        s.len() / 2,
        |i: int| (hex_value(s[2 * i]) * 16 + hex_value(s[2 * i + 1])) as u8,
    )
}

/// The one-character string of the digit `n`.
fn hex_digit_str(n: u8) -> (s: &'static str)
    requires
        n < 16,
    ensures
        s@ == seq![hex_digit(n as int)],
{
    match n {
        0 => { proof { reveal_strlit("0"); } "0" },
        1 => { proof { reveal_strlit("1"); } "1" },
        2 => { proof { reveal_strlit("2"); } "2" },
        3 => { proof { reveal_strlit("3"); } "3" },
        4 => { proof { reveal_strlit("4"); } "4" },
        5 => { proof { reveal_strlit("5"); } "5" },
        6 => { proof { reveal_strlit("6"); } "6" },
        7 => { proof { reveal_strlit("7"); } "7" },
        8 => { proof { reveal_strlit("8"); } "8" },
        9 => { proof { reveal_strlit("9"); } "9" },
        10 => { proof { reveal_strlit("A"); } "A" },
        11 => { proof { reveal_strlit("B"); } "B" },
        12 => { proof { reveal_strlit("C"); } "C" },
        13 => { proof { reveal_strlit("D"); } "D" },
        14 => { proof { reveal_strlit("E"); } "E" },
        _ => { proof { reveal_strlit("F"); } "F" },
    }
}

/// Converts `bytes` to an upper-case hexadecimal string.
pub fn bytes_to_hex(bytes: &[u8]) -> (hex: String)
    ensures
        hex@ == hex_string(bytes@),
{
    let mut hex = String::new();
    let mut i: usize = 0;
    while i < bytes.len()
        invariant
            i <= bytes@.len(),
            hex@ == hex_string(bytes@.take(i as int)),
        decreases bytes@.len() - i,
    {
        let b = bytes[i];
        hex.append(hex_digit_str(b / 16));
        hex.append(hex_digit_str(b % 16));
        i = i + 1;
        assert(hex@ =~= hex_string(bytes@.take(i as int)));
    }
    assert(bytes@.take(i as int) =~= bytes@);
    hex
}

/// The value of an ASCII hexadecimal digit.
fn digit_value(c: u8) -> (v: u8)
    requires
        is_hex_digit(c as char),
    ensures
        v == hex_value(c as char),
        v < 16,
{
    if 48 <= c && c <= 57 {
        c - 48
    } else if 97 <= c && c <= 102 {
        c - 87
    } else {
        c - 55
    }
}

/// Converts a hexadecimal string to bytes, two digits per byte, the high
/// nibble first. The string must be an even number of hexadecimal digits.
pub fn hex_to_bytes(hex: &str) -> (bytes: Vec<u8>)
    requires
        is_hex_string(hex@),
    ensures
        bytes@ == hex_bytes(hex@),
{
    broadcast use vstd::string::is_ascii_spec_bytes;

    let ghost chars = hex@;
    assert(vstd::string::is_ascii(hex)) by {
        assert forall|i: int| 0 <= i < chars.len() implies '\0' <= #[trigger] chars[i] <= '\u{7f}' by {
            assert(is_hex_digit(chars[i]));
        }
    }
    let raw = hex.as_bytes();
    assert(raw@.len() == chars.len());
    let mut bytes: Vec<u8> = Vec::new();
    let n = raw.len() / 2;
    let mut i: usize = 0;
    while i < n
        invariant
            n == raw@.len() / 2,
            raw@.len() <= usize::MAX,
            raw@.len() == chars.len(),
            is_hex_string(chars),
            forall|j: int| 0 <= j < raw@.len() ==> #[trigger] raw@[j] == chars[j] as u8,
            i <= n,
            bytes@ == hex_bytes(chars).take(i as int),
        decreases n - i,
    {
        assert(2 * i + 1 < raw@.len()) by (nonlinear_arith)
            requires
                i < n,
                n == raw@.len() / 2,
        ;
        assert(is_hex_digit(chars[2 * i as int]));
        assert(is_hex_digit(chars[2 * i + 1]));
        assert(raw@[2 * i as int] == chars[2 * i as int] as u8);
        assert(raw@[2 * i + 1] == chars[2 * i + 1] as u8);
        let hi = digit_value(raw[2 * i]);
        let lo = digit_value(raw[2 * i + 1]);
        bytes.push(hi * 16 + lo);
        i = i + 1;
        assert(bytes@ =~= hex_bytes(chars).take(i as int));
    }
    assert(hex_bytes(chars).take(i as int) =~= hex_bytes(chars));
    bytes
}

/// Converts an optional hexadecimal string to bytes; nothing gives no bytes.
pub fn hex_to_bytes_option(hex: Option<String>) -> (bytes: Vec<u8>)
    requires
        hex matches Some(s) ==> is_hex_string(s@),
    ensures
        match hex {
            Some(s) => bytes@ == hex_bytes(s@),
            None => bytes@ == Seq::<u8>::empty(),
        },
{
    match hex {
        Some(s) => hex_to_bytes(s.as_str()),
        None => Vec::new(),
    }
}

/// Reading back the hexadecimal string of bytes gives the bytes.
pub proof fn law_hex_roundtrip(bytes: Seq<u8>)
    ensures
        is_hex_string(hex_string(bytes)),
        hex_bytes(hex_string(bytes)) == bytes,
{
    let s = hex_string(bytes);
    assert forall|i: int| 0 <= i < s.len() implies #[trigger] is_hex_digit(s[i]) by {
        let b = bytes[i / 2] as int;
        assert(0 <= b / 16 < 16);
        assert(0 <= b % 16 < 16);
    }
    assert forall|i: int| 0 <= i < bytes.len() implies #[trigger] hex_bytes(s)[i] == bytes[i] by {
        let b = bytes[i] as int;
        assert((2 * i) % 2 == 0);
        assert((2 * i + 1) % 2 == 1);
        assert((2 * i) / 2 == i);
        assert((2 * i + 1) / 2 == i);
        assert(hex_value(hex_digit(b / 16)) == b / 16);
        assert(hex_value(hex_digit(b % 16)) == b % 16);
        assert((b / 16) * 16 + b % 16 == b);
    }
    assert(hex_bytes(s) =~= bytes);
}

} // verus!
