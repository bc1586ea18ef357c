//! Mixed-case checksum text of a 20-byte address (EIP-55): the lowercase
//! hexadecimal digits, with each letter upper-cased where the matching
//! nibble of the Keccak-256 digest of that lowercase text is 8 or more.

use tiny_keccak::Hasher;
use vstd::prelude::*;
use vstd::utf8::encode_utf8;

use crate::hex_text::{
    encode_lower, hex_decode, hex_digit, hex_lower, hex_value, is_hex_text, lemma_hex_roundtrip,
    nibble, parse_fixed_hex_spec, strip_hex_prefix, IdParseError,
};

verus! {

/// The Keccak-256 digest of `data`.
pub uninterp spec fn keccak256(data: Seq<u8>) -> Seq<u8>;

/// Calls tiny_keccak's `Keccak::v256` hasher (`update` with `data`, then
/// `finalize`): the 32-byte Keccak-256 digest of `data`, which depends on
/// `data` alone.
#[verifier::external_body]
pub(crate) fn keccak256_digest(data: &[u8]) -> (digest: [u8; 32])
    ensures
        digest@ == keccak256(data@),
{
    let mut hasher = tiny_keccak::Keccak::v256();
    hasher.update(data);
    let mut digest = [0u8; 32];
    hasher.finalize(&mut digest);
    digest
}

/// `String::push` appends one character.
pub assume_specification[ String::push ](string: &mut String, ch: char)
    ensures
        final(string)@ == old(string)@.push(ch),
;

/// The upper-case form of an ASCII lowercase letter; any other character unchanged.
pub open spec fn ascii_upper(c: char) -> char {
    if 97 <= c as int <= 122 {
        (c as int - 32) as char
    } else {
        c
    }
}

/// Character `c` of the address text, upper-cased when its digest nibble `n` is 8 or more.
pub open spec fn checksum_case(c: char, n: int) -> char {
    if n >= 8 {
        ascii_upper(c)
    } else {
        c
    }
}

/// The digits of `lower` with their case set by the nibbles of `hash`.
pub open spec fn eip55_digits(lower: Seq<char>, hash: Seq<u8>) -> Seq<char> {
    Seq::new(lower.len(), |i: int| checksum_case(lower[i], nibble(hash, i)))
}

/// The checksum text of an address: `0x`, then its lowercase hexadecimal
/// digits cased by the Keccak-256 digest of the bytes of those digits.
pub open spec fn checksum_text(address: Seq<u8>) -> Seq<char> {
    let lower = hex_lower(address);
    seq!['0', 'x'] + eip55_digits(lower, keccak256(encode_utf8(lower)))
}

fn upper_hex_letter(c: char) -> (upper: char)
    requires
        hex_value(c) is Some,
    ensures
        upper == ascii_upper(c),
{
    match c {
        'a' => 'A',
        'b' => 'B',
        'c' => 'C',
        'd' => 'D',
        'e' => 'E',
        'f' => 'F',
        _ => c,
    }
}

/// `0x` and the digits of `lower` with their case set by the nibbles of `digest`.
fn cased_digits(lower: &String, digest: &[u8; 32]) -> (text: String)
    requires
        is_hex_text(lower@),
        lower@.len() <= 64,
    ensures
        text@ == seq!['0', 'x'] + eip55_digits(lower@, digest@),
{
    proof {
        reveal_strlit("0x");
    }
    let mut text = String::from_str("0x");
    let ghost digits = eip55_digits(lower@, digest@);
    let n = lower.as_str().unicode_len();
    let mut i: usize = 0;
    while i < n
        invariant
            0 <= i <= n,
            n == lower@.len(),
            n <= 64,
            is_hex_text(lower@),
            digest@.len() == 32,
            digits == eip55_digits(lower@, digest@),
            text@ == seq!['0', 'x'] + digits.take(i as int),
        decreases n - i,
    {
        let c = lower.as_str().get_char(i);
        let b = digest[i / 2];
        let nibble_value: u8 = if i % 2 == 0 {
            b / 16
        } else {
            b % 16
        };
        assert(hex_value(lower@[i as int]) is Some);
        let shown = if nibble_value >= 8 {
            upper_hex_letter(c)
        } else {
            c
        };
        assert(shown == digits[i as int]);
        text.push(shown);
        i = i + 1;
        assert(digits.take(i as int) =~= digits.take(i - 1).push(shown));
    }
    assert(digits.take(n as int) =~= digits);
    text
}

/// The checksum text of an address whose lowercase digits hash to
/// `digest`: `0x`, then those digits with the letter at position `i`
/// upper-cased where nibble `i` of `digest` is 8 or more.
pub fn checksum_with_digest(address: &[u8; 20], digest: &[u8; 32]) -> (text: String)
    ensures
        text@ == seq!['0', 'x'] + eip55_digits(hex_lower(address@), digest@),
{
    let lower = encode_lower(address.as_slice());
    proof {
        lemma_hex_roundtrip(address@);
    }
    cased_digits(&lower, digest)
}

/// The checksum text of the 20 bytes of an address.
pub fn checksum(address: &[u8; 20]) -> (text: String)
    ensures
        text@ == checksum_text(address@),
{
    let lower = encode_lower(address.as_slice());
    let digest = keccak256_digest(lower.as_str().as_bytes());
    proof {
        lemma_hex_roundtrip(address@);
    }
    cased_digits(&lower, &digest)
}

proof fn lemma_cased_digit_value(v: int, n: int)
    requires
        0 <= v < 16,
    ensures
        hex_value(checksum_case(hex_digit(v), n)) == Some(v),
{
}

/// Upper-casing letters as the checksum does leaves the bytes that the text
/// decodes to unchanged.
pub proof fn lemma_cased_decode(address: Seq<u8>, hash: Seq<u8>)
    ensures
        hex_decode(eip55_digits(hex_lower(address), hash)) == Some(address),
{
    let lower = hex_lower(address);
    let cased = eip55_digits(lower, hash);
    lemma_hex_roundtrip(address);
    assert forall|i: int| 0 <= i < cased.len() implies hex_value(cased[i]) == hex_value(
        lower[i],
    ) by {
        lemma_cased_digit_value(nibble(address, i), nibble(hash, i));
    }
    assert forall|i: int| 0 <= i < cased.len() implies (#[trigger] hex_value(cased[i])) is Some by {
        assert(hex_value(lower[i]) is Some);
    }
    let d1 = hex_decode(cased).unwrap();
    let d0 = hex_decode(lower).unwrap();
    assert forall|k: int| 0 <= k < d1.len() implies d1[k] == d0[k] by {
        assert(hex_value(cased[2 * k]) == hex_value(lower[2 * k]));
        assert(hex_value(cased[2 * k + 1]) == hex_value(lower[2 * k + 1]));
    }
    assert(d1 =~= d0);
}

/// The checksum text of an address reads back as the same address.
pub proof fn lemma_checksum_parses_back(address: Seq<u8>)
    requires
        address.len() == 20,
    ensures
        parse_fixed_hex_spec(checksum_text(address), 20) == Ok::<Seq<u8>, IdParseError>(address),
{
    let lower = hex_lower(address);
    let text = checksum_text(address);
    assert(strip_hex_prefix(text) =~= eip55_digits(lower, keccak256(encode_utf8(lower))));
    lemma_cased_decode(address, keccak256(encode_utf8(lower)));
}

/// Checksum text of a value that stands for a 20-byte address.
pub trait ToETHChecksum {
    /// The 20 bytes that the value stands for.
    spec fn checksum_bytes(&self) -> Seq<u8>;

    /// The 20 bytes that the value stands for.
    fn address_bytes(&self) -> (bytes: &[u8; 20])
        ensures
            bytes@ == self.checksum_bytes(),
    ;

    /// `0x` and the mixed-case checksum digits of the address.
    fn to_checksum(&self) -> (text: String)
        ensures
            text@ == checksum_text(self.checksum_bytes()),
    {
        checksum(self.address_bytes())
    }
}

impl ToETHChecksum for [u8; 20] {
    open spec fn checksum_bytes(&self) -> Seq<u8> {
        self@
    }

    fn address_bytes(&self) -> (bytes: &[u8; 20]) {
        self
    }
}

} // verus!
