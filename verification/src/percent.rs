//! Percent-encoding of object keys.

use crate::text::{trim_start_matches, trim_start_of};
use vstd::prelude::*;
use vstd::string::*;
use vstd::utf8::*;

verus! {

/// The upper-case hexadecimal digit of a value below 16.
pub open spec fn upper_hex_digit(value: int) -> char {
    if value < 10 {
        ('0' as int + value) as char
    } else {
        ('A' as int + value - 10) as char
    }
}

/// A per cent sign and the two upper-case hexadecimal digits of `byte`.
pub open spec fn percent_triplet(byte: u8) -> Seq<char> {
    seq!['%', upper_hex_digit(byte as int / 16), upper_hex_digit(byte as int % 16)]
}

/// `percent_encoding::percent_encode_byte`. Trusted: it returns a per cent
/// sign and the two upper-case hexadecimal digits of the byte.
pub assume_specification[ percent_encoding::percent_encode_byte ](byte: u8) -> (triplet:
    &'static str)
    ensures
        triplet@ == percent_triplet(byte),
;

/// The bytes of an object key that stand for themselves in a request path:
/// ASCII letters and digits, `-`, `.`, `_`, `~`, and the `/` between segments.
pub open spec fn stands_for_itself(byte: u8) -> bool {
    ||| 'a' as u8 <= byte <= 'z' as u8
    ||| 'A' as u8 <= byte <= 'Z' as u8
    ||| '0' as u8 <= byte <= '9' as u8
    ||| byte == '-' as u8
    ||| byte == '.' as u8
    ||| byte == '_' as u8
    ||| byte == '~' as u8
    ||| byte == '/' as u8
}

/// One byte of an encoded key.
pub open spec fn encoded_byte(byte: u8) -> Seq<char> {
    if stands_for_itself(byte) {
        seq![byte as char]
    } else {
        percent_triplet(byte)
    }
}

/// The encodings of the bytes, in order.
pub open spec fn encoded(bytes: Seq<u8>) -> Seq<char>
    decreases bytes.len(),
{
    if bytes.len() == 0 {
        seq![]
    } else {
        encoded_byte(bytes[0]) + encoded(bytes.drop_first())
    }
}

/// An object key as it stands in a request path: without leading slashes,
/// every byte of its UTF-8 form encoded.
pub open spec fn encoded_key(key: Seq<char>) -> Seq<char> {
    encoded(encode_utf8(trim_start_of(key, '/')))
}

fn keeps_byte(byte: u8) -> (keeps: bool)
    ensures
        keeps == stands_for_itself(byte),
{
    (0x61 <= byte && byte <= 0x7a) || (0x41 <= byte && byte <= 0x5a) || (0x30 <= byte && byte
        <= 0x39) || byte == 0x2d || byte == 0x2e || byte == 0x5f || byte == 0x7e || byte == 0x2f
}

/// Encodes an object key for a request path.
pub fn encode_key_path(key: &str) -> (path: String)
    ensures
        path@ == encoded_key(key@),
{
    let trimmed = trim_start_matches(key, '/');
    let bytes = trimmed.as_str().as_bytes();
    let mut path = String::new();
    assert(bytes@.skip(0) =~= bytes@);
    for i in 0..bytes.len()
        invariant
            path@ + encoded(bytes@.skip(i as int)) == encoded(bytes@),
    {
        let byte = bytes[i];
        if keeps_byte(byte) {
            path.push(byte as char);
        } else {
            path.append(percent_encoding::percent_encode_byte(byte));
        }
        proof {
            let rest = bytes@.skip(i as int);
            assert(rest.drop_first() =~= bytes@.skip(i + 1));
            assert(rest[0] == byte);
            assert(path@ + encoded(bytes@.skip(i + 1)) =~= encoded(bytes@));
        }
    }
    assert(path@ =~= encoded(bytes@));
    path
}

} // verus!
