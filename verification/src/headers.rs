//! Request headers in a `reqwest::header::HeaderMap`.

use crate::text::{chars_of, string_of};
use reqwest::header::{HeaderMap, HeaderName, HeaderValue};
use vstd::prelude::*;
use vstd::string::*;
use vstd::utf8::*;

verus! {

/// `reqwest::header::HeaderMap`.
#[verifier::external_type_specification]
#[verifier::external_body]
#[verifier::reject_recursive_types(T)]
pub struct ExHeaderMap<T>(HeaderMap<T>);

/// `reqwest::header::HeaderValue`.
#[verifier::external_type_specification]
#[verifier::external_body]
pub struct ExHeaderValue(HeaderValue);

/// What a header map holds: for each header name, in lower case, the bytes of
/// its values in order.
pub uninterp spec fn header_values(headers: HeaderMap<HeaderValue>) -> Map<Seq<char>, Seq<Seq<u8>>>;

/// Lower-case letters, digits and hyphens, at least one and at most 64.
pub open spec fn is_header_name(name: Seq<char>) -> bool {
    &&& 1 <= name.len() <= 64
    &&& forall|i: int|
        0 <= i < name.len() ==> {
            ||| 'a' <= #[trigger] name[i] <= 'z'
            ||| '0' <= name[i] <= '9'
            ||| name[i] == '-'
        }
}

/// A byte that a header value may hold.
pub open spec fn is_value_byte(byte: u8) -> bool {
    32 <= byte && byte != 127 || byte == 9
}

/// A byte of a header value that can be read back as text.
pub open spec fn is_visible_byte(byte: u8) -> bool {
    32 <= byte < 127 || byte == 9
}

/// Calls `HeaderMap::new`. Trusted: the new map is empty.
#[verifier::external_body]
pub(crate) fn no_headers() -> (headers: HeaderMap<HeaderValue>)
    ensures
        header_values(headers).dom() == Set::<Seq<char>>::empty(),
{
    HeaderMap::new()
}

/// Calls `HeaderMap::insert` with `HeaderName::from_static(name)` and
/// `HeaderValue::from_str(value)`. Trusted: the bytes of `value` become the
/// only value of `name`, and the other headers stay. The bounds keep away from
/// the panics of the three calls: a name or a value that they refuse, and a map
/// that is full.
#[verifier::external_body]
pub(crate) fn insert_header(
    headers: &mut HeaderMap<HeaderValue>,
    name: &'static str,
    value: &str,
)
    requires
        is_header_name(name@),
        forall|i: int|
            0 <= i < encode_utf8(value@).len() ==> is_value_byte(
                #[trigger] encode_utf8(value@)[i],
            ),
        header_values(*old(headers)).dom().finite(),
        header_values(*old(headers)).dom().len() < 1000,
    ensures
        header_values(*final(headers)) == header_values(*old(headers)).insert(
            name@,
            seq![encode_utf8(value@)],
        ),
{
    headers.insert(HeaderName::from_static(name), HeaderValue::from_str(value).unwrap());
}

/// Calls `HeaderMap::get` and `HeaderValue::to_str`. Trusted: the text read is
/// that of the header's first value. The bounds keep away from a header that
/// is not there and from a value that is not visible text.
#[verifier::external_body]
pub(crate) fn header_text(headers: &HeaderMap<HeaderValue>, name: &str) -> (text: String)
    requires
        is_header_name(name@),
        header_values(*headers).contains_key(name@),
        header_values(*headers)[name@].len() > 0,
        forall|i: int|
            0 <= i < header_values(*headers)[name@][0].len() ==> is_visible_byte(
                #[trigger] header_values(*headers)[name@][0][i],
            ),
    ensures
        encode_utf8(text@) == header_values(*headers)[name@][0],
{
    headers.get(name).unwrap().to_str().unwrap().to_string()
}

/// A character that a header value may hold.
pub open spec fn is_value_char(c: char) -> bool {
    ' ' <= c && c != '\u{7f}' || c == '\t'
}

/// A character of a header value that can be read back.
pub open spec fn is_visible_char(c: char) -> bool {
    ' ' <= c < '\u{7f}' || c == '\t'
}

/// Text that a header value may hold: no control character but the tab.
pub open spec fn is_value_text(s: Seq<char>) -> bool {
    forall|i: int| 0 <= i < s.len() ==> is_value_char(#[trigger] s[i])
}

/// Text that a header value gives back: printable ASCII and the tab.
pub open spec fn is_visible_text(s: Seq<char>) -> bool {
    forall|i: int| 0 <= i < s.len() ==> is_visible_char(#[trigger] s[i])
}

/// `s` without the spaces and tabs at its start.
pub open spec fn trim_blanks_start_of(s: Seq<char>) -> Seq<char>
    decreases s.len(),
{
    if s.len() > 0 && (s.first() == ' ' || s.first() == '\t') {
        trim_blanks_start_of(s.drop_first())
    } else {
        s
    }
}

/// `s` without the spaces and tabs at its end.
pub open spec fn trim_blanks_end_of(s: Seq<char>) -> Seq<char>
    decreases s.len(),
{
    if s.len() > 0 && (s.last() == ' ' || s.last() == '\t') {
        trim_blanks_end_of(s.drop_last())
    } else {
        s
    }
}

/// `s` without the spaces and tabs at its two ends.
pub open spec fn trim_blanks_of(s: Seq<char>) -> Seq<char> {
    trim_blanks_end_of(trim_blanks_start_of(s))
}

/// A single character's UTF-8 form holds only bytes that a header may hold.
proof fn lemma_value_char_bytes(c: char)
    requires
        is_value_char(c),
    ensures
        forall|i: int|
            0 <= i < encode_scalar(c as u32).len() ==> is_value_byte(
                #[trigger] encode_scalar(c as u32)[i],
            ),
{
    let u = c as u32;
    char_is_scalar(c);
    assert(u < 0x80 ==> leading_byte_width_1(u) == u) by (bit_vector);
    assert(leading_byte_width_2(u) >= 0x80) by (bit_vector);
    assert(leading_byte_width_3(u) >= 0x80) by (bit_vector);
    assert(leading_byte_width_4(u) >= 0x80) by (bit_vector);
    assert(last_continuation_byte(u) >= 0x80) by (bit_vector);
    assert(second_last_continuation_byte(u) >= 0x80) by (bit_vector);
    assert(third_last_continuation_byte(u) >= 0x80) by (bit_vector);
}

/// The bytes of header text are header bytes.
pub(crate) proof fn lemma_value_text_bytes(s: Seq<char>)
    requires
        is_value_text(s),
    ensures
        forall|i: int|
            0 <= i < encode_utf8(s).len() ==> is_value_byte(#[trigger] encode_utf8(s)[i]),
    decreases s.len(),
{
    if s.len() > 0 {
        assert(is_value_char(s[0]));
        lemma_value_char_bytes(s[0]);
        assert forall|i: int| 0 <= i < s.drop_first().len() implies is_value_char(
            #[trigger] s.drop_first()[i],
        ) by {
            assert(is_value_char(s[i + 1]));
        }
        lemma_value_text_bytes(s.drop_first());
        let first = encode_scalar(s[0] as u32);
        assert forall|i: int| 0 <= i < encode_utf8(s).len() implies is_value_byte(
            #[trigger] encode_utf8(s)[i],
        ) by {
            if i < first.len() {
                assert(encode_utf8(s)[i] == first[i]);
            } else {
                assert(encode_utf8(s)[i] == encode_utf8(s.drop_first())[i - first.len()]);
            }
        }
    }
}

/// The bytes of visible text are visible bytes.
pub(crate) proof fn lemma_visible_text_bytes(s: Seq<char>)
    requires
        is_visible_text(s),
    ensures
        is_value_text(s),
        forall|i: int|
            0 <= i < encode_utf8(s).len() ==> is_visible_byte(#[trigger] encode_utf8(s)[i]),
{
    assert forall|i: int| 0 <= i < s.len() implies '\0' <= #[trigger] s[i] <= '\u{7f}'
        && is_value_char(s[i]) by {
        assert(is_visible_char(s[i]));
    }
    is_ascii_chars_encode_utf8(s);
    assert forall|i: int| 0 <= i < encode_utf8(s).len() implies is_visible_byte(
        #[trigger] encode_utf8(s)[i],
    ) by {
        assert(is_visible_char(s[i]));
        assert(s[i] as u8 == encode_utf8(s)[i]);
    }
}

/// Whether a header value may hold `s`.
pub fn value_text(s: &str) -> (yes: bool)
    ensures
        yes == is_value_text(s@),
{
    let chars = chars_of(s);
    for i in 0..chars.len()
        invariant
            chars@ == s@,
            forall|j: int| 0 <= j < i ==> is_value_char(#[trigger] chars@[j]),
    {
        let c = chars[i];
        if !(' ' <= c && c != '\u{7f}' || c == '\t') {
            assert(!is_value_char(s@[i as int]));
            return false;
        }
    }
    true
}

/// Whether `s` can stand in a header value and be read back.
pub fn visible_text(s: &str) -> (yes: bool)
    ensures
        yes == is_visible_text(s@),
{
    let chars = chars_of(s);
    for i in 0..chars.len()
        invariant
            chars@ == s@,
            forall|j: int| 0 <= j < i ==> is_visible_char(#[trigger] chars@[j]),
    {
        let c = chars[i];
        if !(' ' <= c && c < '\u{7f}' || c == '\t') {
            assert(!is_visible_char(s@[i as int]));
            return false;
        }
    }
    true
}

/// Removes the spaces and tabs at the two ends of `s`.
pub(crate) fn trim_blanks(s: &str) -> (out: String)
    ensures
        out@ == trim_blanks_of(s@),
{
    let chars = chars_of(s);
    let mut from: usize = 0;
    assert(s@.skip(0) =~= s@);
    while from < chars.len() && (chars[from] == ' ' || chars[from] == '\t')
        invariant
            from <= chars@.len(),
            chars@ == s@,
            trim_blanks_start_of(s@) == trim_blanks_start_of(s@.skip(from as int)),
        decreases chars@.len() - from,
    {
        assert(s@.skip(from as int).drop_first() =~= s@.skip(from + 1));
        from += 1;
    }
    let ghost started = s@.skip(from as int);
    let mut to: usize = chars.len();
    assert(started =~= s@.subrange(from as int, s@.len() as int));
    while to > from && (chars[to - 1] == ' ' || chars[to - 1] == '\t')
        invariant
            from <= to <= chars@.len(),
            chars@ == s@,
            trim_blanks_end_of(started) == trim_blanks_end_of(
                s@.subrange(from as int, to as int),
            ),
        decreases to,
    {
        assert(s@.subrange(from as int, to as int).drop_last() =~= s@.subrange(
            from as int,
            to - 1,
        ));
        to -= 1;
    }
    string_of(chars.as_slice(), from, to)
}

} // verus!
