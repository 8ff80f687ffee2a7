//! Object keys keep their identity on their way into a request.

use crate::digest::{hex_of, lower_hex_digit};
use crate::percent::{encoded, encoded_byte, encoded_key, percent_triplet, stands_for_itself};
use crate::storage::{endpoint_root, object_path_of, TargetView};
use crate::text::{joined, trim_start_of};
use vstd::prelude::*;
use vstd::utf8::*;

verus! {

/// Different bytes have different digits.
proof fn lemma_percent_triplet_injective(a: u8, b: u8)
    requires
        percent_triplet(a) == percent_triplet(b),
    ensures
        a == b,
{
    assert(percent_triplet(a)[1] == percent_triplet(b)[1]);
    assert(percent_triplet(a)[2] == percent_triplet(b)[2]);
    assert(a as int / 16 == b as int / 16);
    assert(a as int % 16 == b as int % 16);
}

/// Encoding keeps bytes apart: no two byte strings encode alike.
proof fn lemma_encoded_injective(a: Seq<u8>, b: Seq<u8>)
    requires
        encoded(a) == encoded(b),
    ensures
        a == b,
    decreases a.len(),
{
    if a.len() == 0 || b.len() == 0 {
        if a.len() > 0 {
            assert(encoded(a)[0] == encoded_byte(a[0])[0]);
        }
        if b.len() > 0 {
            assert(encoded(b)[0] == encoded_byte(b[0])[0]);
        }
        assert(a =~= b);
    } else {
        let x = encoded_byte(a[0]);
        let y = encoded_byte(b[0]);
        assert(encoded(a)[0] == x[0]);
        assert(encoded(b)[0] == y[0]);
        assert(x.len() == y.len());
        assert(encoded(a).take(x.len() as int) =~= x);
        assert(encoded(b).take(y.len() as int) =~= y);
        if stands_for_itself(a[0]) {
            assert(a[0] == b[0]);
        } else {
            lemma_percent_triplet_injective(a[0], b[0]);
        }
        assert(encoded(a).skip(x.len() as int) =~= encoded(a.drop_first()));
        assert(encoded(b).skip(y.len() as int) =~= encoded(b.drop_first()));
        lemma_encoded_injective(a.drop_first(), b.drop_first());
        assert(a =~= seq![a[0]] + a.drop_first());
        assert(b =~= seq![b[0]] + b.drop_first());
    }
}

/// Two object keys that do not start with a slash share an encoding only if
/// they are the same key.
pub proof fn law_encoding_tells_keys_apart(a: Seq<char>, b: Seq<char>)
    requires
        a.len() > 0 ==> a[0] != '/',
        b.len() > 0 ==> b[0] != '/',
        encoded_key(a) == encoded_key(b),
    ensures
        a == b,
{
    lemma_encoded_injective(encode_utf8(a), encode_utf8(b));
    encode_utf8_decode_utf8(a);
    encode_utf8_decode_utf8(b);
}

/// Two objects of a bucket whose keys do not start with a slash share a
/// request path only if they are the same object.
pub proof fn law_object_paths_tell_keys_apart(target: TargetView, a: Seq<char>, b: Seq<char>)
    requires
        a.len() > 0 ==> a[0] != '/',
        b.len() > 0 ==> b[0] != '/',
        object_path_of(target, a) == object_path_of(target, b),
    ensures
        a == b,
{
    let base = endpoint_root(target.endpoint.path) + target.bucket + "/"@;
    assert(object_path_of(target, a).skip(base.len() as int) =~= encoded_key(a));
    assert(object_path_of(target, b).skip(base.len() as int) =~= encoded_key(b));
    law_encoding_tells_keys_apart(a, b);
}

/// The encoding of a whole is the encoding of its parts.
proof fn lemma_encoded_concat(a: Seq<u8>, b: Seq<u8>)
    ensures
        encoded(a + b) == encoded(a) + encoded(b),
    decreases a.len(),
{
    if a.len() == 0 {
        assert(a + b =~= b);
        assert(encoded(a) + encoded(b) =~= encoded(b));
    } else {
        lemma_encoded_concat(a.drop_first(), b);
        assert((a + b).drop_first() =~= a.drop_first() + b);
        assert(encoded(a + b) =~= encoded(a) + encoded(b));
    }
}

/// UTF-8 of a whole is the UTF-8 of its parts.
proof fn lemma_encode_utf8_concat(a: Seq<char>, b: Seq<char>)
    ensures
        encode_utf8(a + b) == encode_utf8(a) + encode_utf8(b),
    decreases a.len(),
{
    if a.len() == 0 {
        assert(a + b =~= b);
        assert(encode_utf8(a) + encode_utf8(b) =~= encode_utf8(b));
    } else {
        lemma_encode_utf8_concat(a.drop_first(), b);
        assert((a + b).drop_first() =~= a.drop_first() + b);
        assert(encode_utf8(a + b) =~= encode_utf8(a) + encode_utf8(b));
    }
}

/// The pieces of `s` between occurrences of `c`.
pub open spec fn split_of(s: Seq<char>, c: char) -> Seq<Seq<char>>
    decreases s.len(),
{
    if s.len() == 0 {
        seq![seq![]]
    } else if s.last() == c {
        split_of(s.drop_last(), c).push(seq![])
    } else {
        let before = split_of(s.drop_last(), c);
        before.drop_last().push(before.last().push(s.last()))
    }
}

/// One segment of an object key, encoded by itself.
pub open spec fn encoded_segment(segment: Seq<char>) -> Seq<char> {
    encoded(encode_utf8(segment))
}

/// Splitting gives at least one piece.
proof fn lemma_split_not_empty(s: Seq<char>, c: char)
    ensures
        split_of(s, c).len() >= 1,
    decreases s.len(),
{
    if s.len() > 0 {
        lemma_split_not_empty(s.drop_last(), c);
    }
}

/// A slash stands for itself.
proof fn lemma_encoded_slash()
    ensures
        encoded(encode_utf8(seq!['/'])) == "/"@,
{
    reveal_strlit("/");
    let slash = seq!['/'];
    is_ascii_chars_encode_utf8(slash);
    assert(encode_utf8(slash) =~= seq!['/' as u8]);
    assert(seq!['/' as u8].drop_first() =~= Seq::<u8>::empty());
    assert(encoded(seq!['/' as u8].drop_first()) =~= Seq::<char>::empty());
    assert(encoded(seq!['/' as u8]) =~= "/"@);
}

/// Adding a piece to the end of a joined list.
proof fn lemma_joined_push(parts: Seq<Seq<char>>, last: Seq<char>, separator: Seq<char>)
    requires
        parts.len() >= 1,
    ensures
        joined(parts.push(last), separator) == joined(parts, separator) + separator + last,
{
    assert(parts.push(last).drop_last() =~= parts);
}

/// Encoding the segments one by one and joining them again gives the encoding
/// of the whole.
proof fn lemma_encoded_by_segments(s: Seq<char>)
    ensures
        encoded(encode_utf8(s)) == joined(
            split_of(s, '/').map_values(|segment: Seq<char>| encoded_segment(segment)),
            "/"@,
        ),
    decreases s.len(),
{
    let encode = |segment: Seq<char>| encoded_segment(segment);
    let pieces = split_of(s, '/');
    lemma_split_not_empty(s, '/');
    if s.len() == 0 {
        assert(encode_utf8(s) =~= Seq::<u8>::empty());
        assert(pieces.map_values(encode)[0] == encoded_segment(seq![]));
        assert(encode_utf8(Seq::<char>::empty()) =~= Seq::<u8>::empty());
    } else {
        let front = s.drop_last();
        let before = split_of(front, '/');
        lemma_split_not_empty(front, '/');
        lemma_encoded_by_segments(front);
        let tail = seq![s.last()];
        assert(s =~= front + tail);
        lemma_encode_utf8_concat(front, tail);
        lemma_encoded_concat(encode_utf8(front), encode_utf8(tail));
        if s.last() == '/' {
            lemma_encoded_slash();
            assert(pieces.map_values(encode) =~= before.map_values(encode).push(
                encoded_segment(seq![]),
            ));
            assert(encode_utf8(Seq::<char>::empty()) =~= Seq::<u8>::empty());
            assert(encoded_segment(seq![]) =~= Seq::<char>::empty());
            lemma_joined_push(before.map_values(encode), encoded_segment(seq![]), "/"@);
            assert(encoded(encode_utf8(s)) =~= joined(pieces.map_values(encode), "/"@));
        } else {
            let last = before.last();
            lemma_encode_utf8_concat(last, tail);
            assert(last + tail =~= last.push(s.last()));
            lemma_encoded_concat(encode_utf8(last), encode_utf8(tail));
            let others = before.drop_last().map_values(encode);
            assert(before.map_values(encode) =~= others.push(encoded_segment(last)));
            assert(pieces.map_values(encode) =~= others.push(
                encoded_segment(last.push(s.last())),
            ));
            if others.len() == 0 {
                assert(others.push(encoded_segment(last))[0] == encoded_segment(last));
            } else {
                lemma_joined_push(others, encoded_segment(last), "/"@);
                lemma_joined_push(others, encoded_segment(last.push(s.last())), "/"@);
                assert(joined(others, "/"@) + "/"@ + (encoded_segment(last) + encoded(
                    encode_utf8(tail),
                )) =~= joined(others, "/"@) + "/"@ + encoded_segment(last) + encoded(
                    encode_utf8(tail),
                ));
            }
        }
    }
}

/// An encoded key is its segments, each encoded by itself, with the slashes
/// between them as they were.
pub proof fn law_encoding_keeps_segments(key: Seq<char>)
    ensures
        encoded_key(key) == joined(
            split_of(trim_start_of(key, '/'), '/').map_values(
                |segment: Seq<char>| encoded_segment(segment),
            ),
            "/"@,
        ),
{
    lemma_encoded_by_segments(trim_start_of(key, '/'));
}

/// A character that an encoded key may hold: an ASCII letter or digit, `-`,
/// `.`, `_`, `~`, `/`, or the per cent sign of an escape.
pub open spec fn is_path_char(c: char) -> bool {
    ||| 'a' <= c <= 'z'
    ||| 'A' <= c <= 'Z'
    ||| '0' <= c <= '9'
    ||| c == '-'
    ||| c == '.'
    ||| c == '_'
    ||| c == '~'
    ||| c == '/'
    ||| c == '%'
}

proof fn lemma_encoded_alphabet(bytes: Seq<u8>)
    ensures
        forall|i: int| 0 <= i < encoded(bytes).len() ==> is_path_char(#[trigger] encoded(bytes)[i]),
    decreases bytes.len(),
{
    if bytes.len() > 0 {
        lemma_encoded_alphabet(bytes.drop_first());
        let first = encoded_byte(bytes[0]);
        assert forall|i: int| 0 <= i < encoded(bytes).len() implies is_path_char(
            #[trigger] encoded(bytes)[i],
        ) by {
            if i < first.len() {
                assert(encoded(bytes)[i] == first[i]);
            } else {
                assert(encoded(bytes)[i] == encoded(bytes.drop_first())[i - first.len()]);
            }
        }
    }
}

/// An encoded key is made of characters that a request path takes as they are.
pub proof fn law_encoded_keys_are_path_text(key: Seq<char>)
    ensures
        forall|i: int|
            0 <= i < encoded_key(key).len() ==> is_path_char(#[trigger] encoded_key(key)[i]),
{
    lemma_encoded_alphabet(encode_utf8(trim_start_of(key, '/')));
}

/// Hexadecimal keeps byte strings apart.
pub proof fn law_hex_tells_bytes_apart(a: Seq<u8>, b: Seq<u8>)
    requires
        hex_of(a) == hex_of(b),
    ensures
        a == b,
{
    assert(hex_of(a).len() == 2 * a.len());
    assert(hex_of(b).len() == 2 * b.len());
    assert forall|i: int| 0 <= i < a.len() implies a[i] == b[i] by {
        assert(hex_of(a)[2 * i] == lower_hex_digit(a[i] as int / 16));
        assert(hex_of(b)[2 * i] == lower_hex_digit(b[i] as int / 16));
        assert(hex_of(a)[2 * i + 1] == lower_hex_digit(a[i] as int % 16));
        assert(hex_of(b)[2 * i + 1] == lower_hex_digit(b[i] as int % 16));
        assert(a[i] as int / 16 == b[i] as int / 16);
    }
    assert(a =~= b);
}

} // verus!
