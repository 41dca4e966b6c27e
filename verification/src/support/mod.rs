//! Settings read from the environment, and the pieces the client and the
//! server share.
//!
//! The environment itself is read by the caller; this module turns the text
//! of a variable into the typed value that the proxy uses.

pub mod builder;
pub mod connection_pool;
pub mod iroh;
pub mod static_cert_verifier;

use vstd::prelude::*;
use vstd::string::StringSliceAdditionalSpecFns;

verus! {

/// The client's TCP listening port when `PROXY_PORT` is not set (any free port).
pub const DEFAULT_PROXY_PORT: u16 = 0;

/// The backlog of the client's TCP listener.
pub const LISTEN_BACKLOG: i32 = 1024;

/// ASCII code of `0`.
pub const ASCII_ZERO: u8 = 48;

/// ASCII code of `+`.
pub const ASCII_PLUS: u8 = 43;

pub open spec fn is_ascii_digit(b: u8) -> bool {
    ASCII_ZERO <= b <= 57
}

pub open spec fn all_ascii_digits(s: Seq<u8>) -> bool {
    forall|i: int| 0 <= i < s.len() ==> is_ascii_digit(#[trigger] s[i])
}

/// The number that a string of decimal digits denotes (most significant first).
pub open spec fn decimal_value(digits: Seq<u8>) -> nat
    decreases digits.len(),
{
    if digits.len() == 0 {
        0
    } else {
        decimal_value(digits.drop_last()) * 10 + (digits.last() - ASCII_ZERO) as nat
    }
}

/// The digits of an unsigned number: the text after an optional leading `+`.
pub open spec fn unsigned_digits(text: Seq<u8>) -> Seq<u8> {
    if text.len() > 0 && text[0] == ASCII_PLUS {
        text.drop_first()
    } else {
        text
    }
}

/// What `str::parse` gives for an unsigned integer type whose largest value
/// is `max`: an optional `+`, then one or more decimal digits whose value
/// fits; anything else (empty text, a sign alone, `-`, other characters,
/// overflow) is refused.
pub open spec fn parse_unsigned(text: Seq<u8>, max: nat) -> Option<nat> {
    let digits = unsigned_digits(text);
    if digits.len() > 0 && all_ascii_digits(digits) && decimal_value(digits) <= max {
        Some(decimal_value(digits))
    } else {
        None
    }
}

/// A prefix of a string of digits never denotes more than the whole string.
pub proof fn lemma_decimal_prefix_le(s: Seq<u8>, k: int)
    requires
        all_ascii_digits(s),
        0 <= k <= s.len(),
    ensures
        decimal_value(s.take(k)) <= decimal_value(s),
    decreases s.len(),
{
    if k < s.len() {
        let t = s.drop_last();
        assert(all_ascii_digits(t)) by {
            assert forall|i: int| 0 <= i < t.len() implies is_ascii_digit(#[trigger] t[i]) by {
                assert(t[i] == s[i]);
            }
        }
        lemma_decimal_prefix_le(t, k);
        assert(t.take(k) =~= s.take(k));
    } else {
        assert(s.take(k) =~= s);
    }
}

/// Parses an unsigned decimal number no larger than `max`, as `str::parse`
/// does for the unsigned integer types.
pub fn parse_unsigned_bytes(bytes: &[u8], max: u64) -> (parsed: Option<u64>)
    ensures
        parsed is Some <==> parse_unsigned(bytes@, max as nat) is Some,
        parsed matches Some(v) ==> parse_unsigned(bytes@, max as nat) == Some(v as nat),
{
    let len = bytes.len();
    let start: usize = if len > 0 && bytes[0] == ASCII_PLUS {
        1
    } else {
        0
    };
    let ghost digits = unsigned_digits(bytes@);
    assert(digits =~= bytes@.subrange(start as int, len as int));
    if start == len {
        return None;
    }
    let mut value: u64 = 0;
    let mut i: usize = start;
    while i < len
        invariant
            start <= i <= len,
            len == bytes@.len(),
            digits =~= bytes@.subrange(start as int, len as int),
            digits == unsigned_digits(bytes@),
            value as nat == decimal_value(bytes@.subrange(start as int, i as int)),
            value <= max,
            all_ascii_digits(bytes@.subrange(start as int, i as int)),
        decreases len - i,
    {
        let b = bytes[i];
        let ghost prefix = bytes@.subrange(start as int, i as int);
        let ghost next_prefix = bytes@.subrange(start as int, i as int + 1);
        assert(next_prefix.drop_last() =~= prefix);
        assert(next_prefix.last() == b);
        if b < ASCII_ZERO || b > 57 {
            assert(digits[i - start] == b);
            assert(!is_ascii_digit(digits[i - start]));
            return None;
        }
        let next: u128 = value as u128 * 10 + (b - ASCII_ZERO) as u128;
        assert(decimal_value(next_prefix) == next as nat);
        assert(all_ascii_digits(next_prefix)) by {
            assert forall|j: int| 0 <= j < next_prefix.len() implies is_ascii_digit(
                #[trigger] next_prefix[j],
            ) by {
                if j < prefix.len() {
                    assert(next_prefix[j] == prefix[j]);
                }
            }
        }
        if next > max as u128 {
            proof {
                if all_ascii_digits(digits) {
                    assert(digits.take(i - start + 1) =~= next_prefix);
                    lemma_decimal_prefix_le(digits, i - start + 1);
                }
            }
            return None;
        }
        value = next as u64;
        i = i + 1;
    }
    assert(bytes@.subrange(start as int, i as int) =~= digits);
    Some(value)
}

/// Parses the text of a `u16` setting (a port, a number of seconds).
pub fn parse_u16(text: &str) -> (parsed: Option<u16>)
    ensures
        parsed is Some <==> parse_unsigned(text.spec_bytes(), u16::MAX as nat) is Some,
        parsed matches Some(v) ==> parse_unsigned(text.spec_bytes(), u16::MAX as nat) == Some(
            v as nat,
        ),
{
    match parse_unsigned_bytes(text.as_bytes(), 65535) {
        Some(v) => Some(v as u16),
        None => None,
    }
}

/// Parses the text of a `u32` setting (a QUIC flow-control window).
pub fn parse_u32(text: &str) -> (parsed: Option<u32>)
    ensures
        parsed is Some <==> parse_unsigned(text.spec_bytes(), u32::MAX as nat) is Some,
        parsed matches Some(v) ==> parse_unsigned(text.spec_bytes(), u32::MAX as nat) == Some(
            v as nat,
        ),
{
    match parse_unsigned_bytes(text.as_bytes(), 4294967295) {
        Some(v) => Some(v as u32),
        None => None,
    }
}

/// Parses the text of a `u64` setting (the congestion controller's initial window).
pub fn parse_u64(text: &str) -> (parsed: Option<u64>)
    ensures
        parsed is Some <==> parse_unsigned(text.spec_bytes(), u64::MAX as nat) is Some,
        parsed matches Some(v) ==> parse_unsigned(text.spec_bytes(), u64::MAX as nat) == Some(
            v as nat,
        ),
{
    parse_unsigned_bytes(text.as_bytes(), 18446744073709551615)
}

} // verus!
