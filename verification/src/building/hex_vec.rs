//! Lists of byte strings as lists of hex strings, the form that proofs have in JSON.

use crate::primitives::bytes::byte_strings;
use vstd::prelude::*;
use vstd::string::{StrSliceExecFns, StringExecFns};

verus! {

#[verifier::external_type_specification]
#[verifier::external_body]
pub struct ExFromHexError(hex::FromHexError);

/// The lower-case hex digit of a number below 16.
pub open spec fn hex_digit(n: int) -> char {
    if n < 10 {
        ('0' as int + n) as char
    } else {
        ('a' as int + (n - 10)) as char
    }
}

/// The number that a hex digit of either case stands for.
pub open spec fn digit_value(c: char) -> Option<int> {
    if '0' <= c <= '9' {
        Some(c as int - '0' as int)
    } else if 'a' <= c <= 'f' {
        Some(c as int - 'a' as int + 10)
    } else if 'A' <= c <= 'F' {
        Some(c as int - 'A' as int + 10)
    } else {
        None
    }
}

/// Two lower-case hex digits for each byte.
pub open spec fn hex_chars(bytes: Seq<u8>) -> Seq<char> {
    Seq::new(
        2 * bytes.len(),
        |i: int| hex_digit(
            if i % 2 == 0 {
                bytes[i / 2] as int / 16
            } else {
                bytes[i / 2] as int % 16
            },
        ),
    )
}

/// Whether characters are hex digits, two for each byte.
pub open spec fn is_hex(chars: Seq<char>) -> bool {
    chars.len() % 2 == 0 && forall|i: int|
        0 <= i < chars.len() ==> digit_value(#[trigger] chars[i]) is Some
}

/// The bytes that hex digits stand for.
pub open spec fn hex_bytes(chars: Seq<char>) -> Seq<u8> {
    Seq::new(
        chars.len() / 2,
        |i: int| (16 * digit_value(chars[2 * i])->0 + digit_value(chars[2 * i + 1])->0) as u8,
    )
}

/// Characters without a leading `0x`.
pub open spec fn without_prefix(chars: Seq<char>) -> Seq<char> {
    if chars.len() >= 2 && chars[0] == '0' && chars[1] == 'x' {
        chars.skip(2)
    } else {
        chars
    }
}

/// A string of the list: `0x` and the hex digits.
pub open spec fn prefixed_hex(bytes: Seq<u8>) -> Seq<char> {
    seq!['0', 'x'] + hex_chars(bytes)
}

/// The characters of a list of strings.
pub open spec fn string_chars(strings: Seq<String>) -> Seq<Seq<char>> {
    strings.map_values(|s: String| s@)
}

/// `hex::encode`: two lower-case hex digits for each byte.
#[verifier::external_body]
fn hex_encode(bytes: &[u8]) -> (text: String)
    ensures
        text@ == hex_chars(bytes@),
{
    hex::encode(bytes)
}

/// `hex::decode`: the bytes that hex digits of either case stand for; an error where there is an
/// odd number of them or another character. Which error it is is left open.
#[verifier::external_body]
fn hex_decode(text: &str) -> (result: Result<Vec<u8>, hex::FromHexError>)
    ensures
        result is Ok <==> is_hex(text@),
        result matches Ok(bytes) ==> bytes@ == hex_bytes(text@),
{
    hex::decode(text)
}

/// A string of a list is not hex.
#[derive(Debug)]
pub struct HexVecError {
    /// Index of the string
    pub index: usize,
    /// What is wrong with it
    pub error: hex::FromHexError,
}

/// Writes each byte string in hex, after `0x`.
pub fn serialize(data: &Vec<Vec<u8>>) -> (strings: Vec<String>)
    ensures
        string_chars(strings@) == byte_strings(data@).map_values(|b: Seq<u8>| prefixed_hex(b)),
        strings@.len() == data@.len(),
        forall|i: int|
            0 <= i < data@.len() ==> (#[trigger] strings@[i])@ == seq!['0', 'x'] + hex_chars(
                data@[i]@,
            ),
{
    let mut strings: Vec<String> = Vec::new();
    let mut i: usize = 0;
    while i < data.len()
        invariant
            i <= data@.len(),
            strings@.len() == i,
            forall|k: int| 0 <= k < i ==> (#[trigger] strings@[k])@ == prefixed_hex(data@[k]@),
        decreases data@.len() - i,
    {
        let digits = hex_encode(data[i].as_slice());
        let mut text = String::from_str("0x");
        text.append(digits.as_str());
        proof {
            reveal_strlit("0x");
            assert(text@ =~= prefixed_hex(data@[i as int]@));
        }
        strings.push(text);
        i += 1;
    }
    assert(string_chars(strings@) =~= byte_strings(data@).map_values(
        |b: Seq<u8>| prefixed_hex(b),
    ));
    strings
}

fn strip_prefix(text: &str) -> (rest: &str)
    ensures
        rest@ == without_prefix(text@),
{
    let len: usize = text.unicode_len();
    if len >= 2 && text.get_char(0) == '0' && text.get_char(1) == 'x' {
        let rest = text.substring_char(2, len);
        assert(rest@ =~= text@.skip(2));
        rest
    } else {
        text
    }
}

/// Reads byte strings back from hex, with or without `0x`.
pub fn deserialize(strings: &Vec<String>) -> (result: Result<Vec<Vec<u8>>, HexVecError>)
    ensures
        match result {
            Ok(data) => {
                &&& forall|i: int|
                    0 <= i < strings@.len() ==> is_hex(without_prefix((#[trigger] strings@[i])@))
                &&& byte_strings(data@) == string_chars(strings@).map_values(
                    |s: Seq<char>| hex_bytes(without_prefix(s)),
                )
                &&& data@.len() == strings@.len()
                &&& forall|i: int|
                    0 <= i < strings@.len() ==> (#[trigger] data@[i])@ == hex_bytes(
                        without_prefix(strings@[i]@),
                    )
            },
            Err(e) => {
                &&& e.index < strings@.len()
                &&& !is_hex(without_prefix(strings@[e.index as int]@))
                &&& forall|i: int|
                    0 <= i < e.index ==> is_hex(without_prefix((#[trigger] strings@[i])@))
            },
        },
{
    let mut data: Vec<Vec<u8>> = Vec::new();
    let mut i: usize = 0;
    while i < strings.len()
        invariant
            i <= strings@.len(),
            data@.len() == i,
            forall|k: int| 0 <= k < i ==> is_hex(without_prefix((#[trigger] strings@[k])@)),
            forall|k: int|
                0 <= k < i ==> (#[trigger] data@[k])@ == hex_bytes(without_prefix(strings@[k]@)),
        decreases strings@.len() - i,
    {
        match hex_decode(strip_prefix(strings[i].as_str())) {
            Ok(bytes) => {
                data.push(bytes);
            },
            Err(error) => {
                return Err(HexVecError { index: i, error });
            },
        }
        i += 1;
    }
    assert(byte_strings(data@) =~= string_chars(strings@).map_values(
        |s: Seq<char>| hex_bytes(without_prefix(s)),
    ));
    Ok(data)
}

proof fn lemma_digit_round_trip(n: int)
    requires
        0 <= n < 16,
    ensures
        digit_value(hex_digit(n)) == Some(n),
{
}

/// What `serialize` writes, `deserialize` reads back unchanged.
pub proof fn hex_round_trip(bytes: Seq<u8>)
    ensures
        is_hex(without_prefix(prefixed_hex(bytes))),
        hex_bytes(without_prefix(prefixed_hex(bytes))) == bytes,
{
    let chars = hex_chars(bytes);
    assert(prefixed_hex(bytes).skip(2) =~= chars);
    assert forall|i: int| 0 <= i < chars.len() implies digit_value(#[trigger] chars[i]) is Some by {
        lemma_digit_round_trip(bytes[i / 2] as int / 16);
        lemma_digit_round_trip(bytes[i / 2] as int % 16);
    }
    assert forall|i: int| 0 <= i < bytes.len() implies hex_bytes(chars)[i] == bytes[i] by {
        lemma_digit_round_trip(bytes[i] as int / 16);
        lemma_digit_round_trip(bytes[i] as int % 16);
        assert((2 * i) / 2 == i && (2 * i) % 2 == 0);
        assert((2 * i + 1) / 2 == i && (2 * i + 1) % 2 == 1);
    }
    assert(hex_bytes(chars) =~= bytes);
}

/// Bytes are written as two lower-case hex digits each, the higher one first, after `0x`.
pub proof fn bytes_are_written_digit_by_digit(bytes: Seq<u8>, i: int)
    requires
        0 <= i < bytes.len(),
    ensures
        ({
            let text = prefixed_hex(bytes);
            let high = text[2 + 2 * i];
            let low = text[2 + 2 * i + 1];
            &&& text.len() == 2 + 2 * bytes.len()
            &&& text[0] == '0'
            &&& text[1] == 'x'
            &&& bytes[i] == 16 * digit_value(high)->0 + digit_value(low)->0
            &&& '0' <= high <= '9' || 'a' <= high <= 'f'
            &&& '0' <= low <= '9' || 'a' <= low <= 'f'
        }),
{
    lemma_digit_round_trip(bytes[i] as int / 16);
    lemma_digit_round_trip(bytes[i] as int % 16);
    let chars = hex_chars(bytes);
    assert(chars[2 * i] == hex_digit(bytes[i] as int / 16));
    assert(chars[2 * i + 1] == hex_digit(bytes[i] as int % 16));
}

/// Text is read with one leading `0x` left out, where there is one, and as it is otherwise. It is hex
/// where it has an even number of characters, each a digit or a letter up to f of either case.
pub proof fn text_is_read_digit_by_digit(text: Seq<char>)
    ensures
        without_prefix(seq!['0', 'x'] + text) == text,
        !(text.len() >= 2 && text[0] == '0' && text[1] == 'x') ==> without_prefix(text) == text,
        is_hex(text) <==> text.len() % 2 == 0 && forall|i: int|
            0 <= i < text.len() ==> '0' <= #[trigger] text[i] <= '9' || 'a' <= text[i] <= 'f' || 'A'
                <= text[i] <= 'F',
        is_hex(text) ==> hex_bytes(text).len() * 2 == text.len(),
{
    assert((seq!['0', 'x'] + text).skip(2) =~= text);
    if is_hex(text) {
        assert forall|i: int| 0 <= i < text.len() implies '0' <= #[trigger] text[i] <= '9' || 'a'
            <= text[i] <= 'f' || 'A' <= text[i] <= 'F' by {
            assert(digit_value(text[i]) is Some);
        }
    }
}

} // verus!
