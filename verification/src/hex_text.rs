//! Hexadecimal text: the lowercase encoding that `hex::encode` produces and
//! the decoding that `hex::decode` performs, stated as spec functions.

use vstd::prelude::*;

verus! {

/// The digit for a nibble value `v` in `0..16`, lowercase.
pub open spec fn hex_digit(v: int) -> char {
    if v < 10 {
        (v + 48) as char
    } else {
        (v + 87) as char
    }
}

/// The value of one hexadecimal digit of either case, `None` for any other character.
pub open spec fn hex_value(c: char) -> Option<int> {
    let n = c as int;
    if 48 <= n <= 57 {
        Some(n - 48)
    } else if 97 <= n <= 102 {
        Some(n - 87)
    } else if 65 <= n <= 70 {
        Some(n - 55)
    } else {
        None
    }
}

/// Nibble `i` of `bytes`, high nibble of each byte first.
pub open spec fn nibble(bytes: Seq<u8>, i: int) -> int {
    if i % 2 == 0 {
        bytes[i / 2] as int / 16
    } else {
        bytes[i / 2] as int % 16
    }
}

/// Lowercase hexadecimal text of `bytes`: two digits per byte, high nibble first.
pub open spec fn hex_lower(bytes: Seq<u8>) -> Seq<char> {
    Seq::new(2 * bytes.len(), |i: int| hex_digit(nibble(bytes, i)))
}

/// Even length and nothing but hexadecimal digits (of either case).
pub open spec fn is_hex_text(text: Seq<char>) -> bool {
    &&& text.len() % 2 == 0
    &&& forall|i: int| 0 <= i < text.len() ==> (#[trigger] hex_value(text[i])) is Some
}

/// The bytes that hexadecimal text stands for, two digits per byte.
pub open spec fn hex_decode(text: Seq<char>) -> Option<Seq<u8>> {
    if is_hex_text(text) {
        Some(
            Seq::new(
                text.len() / 2,
                |k: int|
                    (hex_value(text[2 * k]).unwrap() * 16 + hex_value(text[2 * k + 1]).unwrap()) as u8,
            ),
        )
    } else {
        None
    }
}

proof fn lemma_digit_value(v: int)
    requires
        0 <= v < 16,
    ensures
        hex_value(hex_digit(v)) == Some(v),
{
}

/// The lowercase text of `bytes` has two characters per byte: the digit of
/// its high nibble, then that of its low nibble, each a digit `0`-`9` or a
/// lowercase letter `a`-`f`.
pub proof fn lemma_hex_lower_digits(bytes: Seq<u8>)
    ensures
        hex_lower(bytes).len() == 2 * bytes.len(),
        forall|k: int|
            0 <= k < bytes.len() ==> hex_value(#[trigger] hex_lower(bytes)[2 * k]) == Some(
                bytes[k] as int / 16,
            ) && hex_value(hex_lower(bytes)[2 * k + 1]) == Some(bytes[k] as int % 16),
        forall|i: int|
            0 <= i < hex_lower(bytes).len() ==> {
                let c = #[trigger] hex_lower(bytes)[i] as int;
                (48 <= c <= 57) || (97 <= c <= 102)
            },
{
    assert forall|k: int| 0 <= k < bytes.len() implies hex_value(
        #[trigger] hex_lower(bytes)[2 * k],
    ) == Some(bytes[k] as int / 16) && hex_value(hex_lower(bytes)[2 * k + 1]) == Some(
        bytes[k] as int % 16,
    ) by {
        assert((2 * k) / 2 == k);
        assert((2 * k + 1) / 2 == k);
        assert((2 * k) % 2 == 0);
        assert((2 * k + 1) % 2 == 1);
        lemma_digit_value(bytes[k] as int / 16);
        lemma_digit_value(bytes[k] as int % 16);
    }
}

/// Decoding the lowercase text of any bytes gives the bytes back.
pub proof fn lemma_hex_roundtrip(bytes: Seq<u8>)
    ensures
        hex_decode(hex_lower(bytes)) == Some(bytes),
{
    let text = hex_lower(bytes);
    assert forall|i: int| 0 <= i < text.len() implies (#[trigger] hex_value(text[i])) is Some by {
        lemma_digit_value(nibble(bytes, i));
    }
    let decoded = hex_decode(text).unwrap();
    assert forall|k: int| 0 <= k < bytes.len() implies decoded[k] == bytes[k] by {
        lemma_digit_value(nibble(bytes, 2 * k));
        lemma_digit_value(nibble(bytes, 2 * k + 1));
        assert((2 * k) / 2 == k);
        assert((2 * k + 1) / 2 == k);
        assert((2 * k) % 2 == 0);
        assert((2 * k + 1) % 2 == 1);
    }
    assert(decoded =~= bytes);
}


/// Why a text does not stand for an identifier of a given byte length.
#[derive(Clone, Copy, Debug, PartialEq, Eq, Structural)]
pub enum IdParseError {
    /// Odd length, or a character that is not a hexadecimal digit.
    InvalidHex,
    /// Well-formed hexadecimal text of another length than the identifier's.
    InvalidLength,
}

/// `text` without one leading `0x`, where it has one.
pub open spec fn strip_hex_prefix(text: Seq<char>) -> Seq<char> {
    if text.len() >= 2 && text[0] == '0' && text[1] == 'x' {
        text.skip(2)
    } else {
        text
    }
}

/// The bytes of an identifier of `len` bytes written as hexadecimal text,
/// with or without a leading `0x`.
pub open spec fn parse_fixed_hex_spec(text: Seq<char>, len: nat) -> Result<Seq<u8>, IdParseError> {
    match hex_decode(strip_hex_prefix(text)) {
        None => Err(IdParseError::InvalidHex),
        Some(bytes) => if bytes.len() == len {
            Ok(bytes)
        } else {
            Err(IdParseError::InvalidLength)
        },
    }
}

/// Declares `hex::FromHexError`, the error of `hex::decode`; it is carried
/// and mapped to `IdParseError`, never inspected.
#[verifier::external_type_specification]
#[verifier::external_body]
pub struct ExFromHexError(hex::FromHexError);

/// Calls `hex::encode`, which writes each byte as two lowercase hexadecimal
/// digits, high nibble first.
#[verifier::external_body]
pub(crate) fn encode_lower(data: &[u8]) -> (text: String)
    ensures
        text@ == hex_lower(data@),
{
    hex::encode(data)
}

/// Calls `hex::decode` on the bytes of `text`. It succeeds exactly when the
/// text has even length and holds only hexadecimal digits of either case
/// (any other character, multi-byte ones included, is refused), and then
/// returns one byte per pair of digits, high nibble first.
#[verifier::external_body]
pub(crate) fn decode_text(text: &str) -> (r: Result<Vec<u8>, hex::FromHexError>)
    ensures
        r is Ok <==> hex_decode(text@) is Some,
        r matches Ok(bytes) ==> hex_decode(text@) == Some(bytes@),
{
    hex::decode(text)
}

/// `text` without one leading `0x`.
pub fn without_hex_prefix(text: &str) -> (rest: &str)
    ensures
        rest@ == strip_hex_prefix(text@),
{
    let n = text.unicode_len();
    if n >= 2 && text.get_char(0) == '0' && text.get_char(1) == 'x' {
        text.substring_char(2, n)
    } else {
        text
    }
}

/// Reads an identifier of `len` bytes from hexadecimal text, with or without
/// a leading `0x`.
pub fn parse_fixed_hex(text: &str, len: usize) -> (r: Result<Vec<u8>, IdParseError>)
    ensures
        match parse_fixed_hex_spec(text@, len as nat) {
            Ok(bytes) => r matches Ok(v) && v@ == bytes,
            Err(e) => r == Err::<Vec<u8>, IdParseError>(e),
        },
{
    let digits = without_hex_prefix(text);
    match decode_text(digits) {
        Ok(bytes) => if bytes.len() == len {
            Ok(bytes)
        } else {
            Err(IdParseError::InvalidLength)
        },
        Err(_) => Err(IdParseError::InvalidHex),
    }
}

/// Decoding `0x` followed by the lowercase text of `bytes` gives `bytes`
/// back, whatever their length.
pub proof fn lemma_parse_prefixed_lower(bytes: Seq<u8>)
    ensures
        parse_fixed_hex_spec(seq!['0', 'x'] + hex_lower(bytes), bytes.len()) == Ok::<Seq<u8>, IdParseError>(bytes),
{
    let text = seq!['0', 'x'] + hex_lower(bytes);
    assert(strip_hex_prefix(text) =~= hex_lower(bytes));
    lemma_hex_roundtrip(bytes);
}

/// The first `k` characters of `text` are hexadecimal digits; written as a
/// recursion so that a known text can be checked one character at a time.
pub open spec fn hex_run(text: Seq<char>, k: nat) -> bool
    decreases k,
{
    if k == 0 {
        true
    } else {
        hex_value(text[k - 1]) is Some && hex_run(text, (k - 1) as nat)
    }
}

/// A text whose characters all pass `hex_run` and whose length is even is hexadecimal text.
pub proof fn lemma_hex_run(text: Seq<char>)
    requires
        hex_run(text, text.len()),
        text.len() % 2 == 0,
    ensures
        is_hex_text(text),
{
    lemma_hex_run_prefix(text, text.len());
}

proof fn lemma_hex_run_prefix(text: Seq<char>, k: nat)
    requires
        hex_run(text, k),
        k <= text.len(),
    ensures
        forall|i: int| 0 <= i < k ==> (#[trigger] hex_value(text[i])) is Some,
    decreases k,
{
    if k > 0 {
        lemma_hex_run_prefix(text, (k - 1) as nat);
    }
}

} // verus!
