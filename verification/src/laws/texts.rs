//! What trimming, joining, counting and spelling do to text.

use crate::digest::{hex, hex_of, sha256_hex, sha256_of};
use crate::headers::{
    is_value_char, is_visible_char, trim_blanks_end_of, trim_blanks_of, trim_blanks_start_of,
    value_text, visible_text,
};
use crate::laws::encoding::split_of;
use crate::text::{
    decimal_of, joined, optional_text, replaced, texts, trim_end_of, trim_of, trim_start_of,
};
use vstd::prelude::*;

verus! {

/// Text made of nothing but `c`.
pub open spec fn is_run_of(s: Seq<char>, c: char) -> bool {
    forall|i: int| 0 <= i < s.len() ==> #[trigger] s[i] == c
}

/// `inner` is `whole` without the runs of `c` around it, and has none of its
/// own.
pub open spec fn is_trimmed(whole: Seq<char>, inner: Seq<char>, c: char) -> bool {
    &&& inner.len() > 0 ==> inner[0] != c && inner.last() != c
    &&& exists|before: Seq<char>, after: Seq<char>|
        is_run_of(before, c) && is_run_of(after, c) && whole == #[trigger] (before + inner + after)
}

/// Trimming the end takes a run away.
proof fn lemma_trim_end_run(s: Seq<char>, c: char) -> (after: Seq<char>)
    ensures
        is_run_of(after, c),
        s == trim_end_of(s, c) + after,
        trim_end_of(s, c).len() > 0 ==> trim_end_of(s, c).last() != c,
    decreases s.len(),
{
    if s.len() > 0 && s.last() == c {
        let after = lemma_trim_end_run(s.drop_last(), c);
        let front = s.drop_last();
        assert(front == trim_end_of(front, c) + after);
        assert(trim_end_of(s, c) == trim_end_of(front, c));
        assert(s =~= front.push(c));
        assert(front.push(c) =~= trim_end_of(front, c) + after.push(c));
        after.push(c)
    } else {
        assert(s =~= trim_end_of(s, c) + Seq::<char>::empty());
        Seq::empty()
    }
}

/// Trimming the start takes a run away.
proof fn lemma_trim_start_run(s: Seq<char>, c: char) -> (before: Seq<char>)
    ensures
        is_run_of(before, c),
        s == before + trim_start_of(s, c),
        trim_start_of(s, c).len() > 0 ==> trim_start_of(s, c)[0] != c,
    decreases s.len(),
{
    if s.len() > 0 && s.first() == c {
        let before = lemma_trim_start_run(s.drop_first(), c);
        let longer = seq![c] + before;
        let rest = s.drop_first();
        assert(rest == before + trim_start_of(rest, c));
        assert(trim_start_of(s, c) == trim_start_of(rest, c));
        assert(s =~= seq![c] + rest);
        assert(seq![c] + rest =~= longer + trim_start_of(rest, c));
        assert forall|i: int| 0 <= i < longer.len() implies #[trigger] longer[i] == c by {
            if i > 0 {
                assert(before[i - 1] == c);
            }
        }
        longer
    } else {
        assert(s =~= Seq::<char>::empty() + trim_start_of(s, c));
        Seq::empty()
    }
}

/// Trimming takes away the runs of a character at the ends of a text, all of
/// them and nothing else; trimming one end keeps the other.
pub proof fn law_trimming_takes_outer_runs(s: Seq<char>, c: char)
    ensures
        is_trimmed(s, trim_of(s, c), c),
        exists|before: Seq<char>|
            is_run_of(before, c) && s == #[trigger] (before + trim_start_of(s, c)),
        trim_start_of(s, c).len() > 0 ==> trim_start_of(s, c)[0] != c,
        exists|after: Seq<char>| is_run_of(after, c) && s == #[trigger] (trim_end_of(s, c) + after),
        trim_end_of(s, c).len() > 0 ==> trim_end_of(s, c).last() != c,
{
    let before = lemma_trim_start_run(s, c);
    let started = trim_start_of(s, c);
    let after = lemma_trim_end_run(started, c);
    let trimmed = trim_of(s, c);
    assert(s =~= before + trimmed + after);
    if trimmed.len() > 0 {
        assert(started[0] == trimmed[0]);
    }
    assert(s == before + started);
    let ended = lemma_trim_end_run(s, c);
    assert(s == trim_end_of(s, c) + ended);
}

/// Text made of spaces and tabs alone.
pub open spec fn is_blank(s: Seq<char>) -> bool {
    forall|i: int| 0 <= i < s.len() ==> #[trigger] s[i] == ' ' || s[i] == '\t'
}

proof fn lemma_trim_blanks_end_run(s: Seq<char>) -> (after: Seq<char>)
    ensures
        is_blank(after),
        s == trim_blanks_end_of(s) + after,
        trim_blanks_end_of(s).len() > 0 ==> trim_blanks_end_of(s).last() != ' '
            && trim_blanks_end_of(s).last() != '\t',
    decreases s.len(),
{
    if s.len() > 0 && (s.last() == ' ' || s.last() == '\t') {
        let after = lemma_trim_blanks_end_run(s.drop_last());
        let front = s.drop_last();
        assert(front == trim_blanks_end_of(front) + after);
        assert(trim_blanks_end_of(s) == trim_blanks_end_of(front));
        assert(s =~= front.push(s.last()));
        assert(front.push(s.last()) =~= trim_blanks_end_of(front) + after.push(s.last()));
        after.push(s.last())
    } else {
        assert(s =~= trim_blanks_end_of(s) + Seq::<char>::empty());
        Seq::empty()
    }
}

proof fn lemma_trim_blanks_start_run(s: Seq<char>) -> (before: Seq<char>)
    ensures
        is_blank(before),
        s == before + trim_blanks_start_of(s),
        trim_blanks_start_of(s).len() > 0 ==> trim_blanks_start_of(s)[0] != ' '
            && trim_blanks_start_of(s)[0] != '\t',
    decreases s.len(),
{
    if s.len() > 0 && (s.first() == ' ' || s.first() == '\t') {
        let before = lemma_trim_blanks_start_run(s.drop_first());
        let longer = seq![s.first()] + before;
        let rest = s.drop_first();
        assert(rest == before + trim_blanks_start_of(rest));
        assert(trim_blanks_start_of(s) == trim_blanks_start_of(rest));
        assert(s =~= seq![s.first()] + rest);
        assert(seq![s.first()] + rest =~= longer + trim_blanks_start_of(rest));
        assert forall|i: int| 0 <= i < longer.len() implies #[trigger] longer[i] == ' '
            || longer[i] == '\t' by {
            if i > 0 {
                assert(before[i - 1] == ' ' || before[i - 1] == '\t');
            }
        }
        longer
    } else {
        assert(s =~= Seq::<char>::empty() + trim_blanks_start_of(s));
        Seq::empty()
    }
}

/// Trimming a header value takes away the spaces and tabs around it, all of
/// them and nothing else.
pub proof fn law_trimming_takes_outer_blanks(s: Seq<char>)
    ensures
        trim_blanks_of(s).len() > 0 ==> {
            &&& trim_blanks_of(s)[0] != ' ' && trim_blanks_of(s)[0] != '\t'
            &&& trim_blanks_of(s).last() != ' ' && trim_blanks_of(s).last() != '\t'
        },
        exists|before: Seq<char>, after: Seq<char>|
            is_blank(before) && is_blank(after) && s == #[trigger] (before + trim_blanks_of(s)
                + after),
{
    let before = lemma_trim_blanks_start_run(s);
    let started = trim_blanks_start_of(s);
    let after = lemma_trim_blanks_end_run(started);
    let trimmed = trim_blanks_of(s);
    assert(s =~= before + trimmed + after);
    if trimmed.len() > 0 {
        assert(started[0] == trimmed[0]);
    }
}

/// Replacing a character changes it wherever it stands, and nothing else.
pub proof fn law_replacing_goes_by_character(s: Seq<char>, from: char, to: char)
    ensures
        replaced(s, from, to).len() == s.len(),
        forall|i: int|
            0 <= i < s.len() ==> (s[i] == from ==> #[trigger] replaced(s, from, to)[i] == to),
        forall|i: int|
            0 <= i < s.len() ==> (s[i] != from ==> #[trigger] replaced(s, from, to)[i] == s[i]),
{
}

/// The number that decimal digits spell.
pub open spec fn number_of(digits: Seq<char>) -> int
    decreases digits.len(),
{
    if digits.len() == 0 {
        0
    } else {
        10 * number_of(digits.drop_last()) + (digits.last() as int - '0' as int)
    }
}

/// `text` spells `n` in decimal: in digits alone, and without a zero in front.
pub open spec fn spells(text: Seq<char>, n: nat) -> bool {
    &&& text.len() > 0
    &&& forall|i: int| 0 <= i < text.len() ==> '0' <= #[trigger] text[i] <= '9'
    &&& text.len() > 1 ==> text[0] != '0'
    &&& number_of(text) == n
}

/// A decimal number reads as the number that it was made of.
pub proof fn law_decimals_spell_their_number(n: nat)
    ensures
        spells(decimal_of(n), n),
    decreases n,
{
    if n >= 10 {
        law_decimals_spell_their_number(n / 10);
        let front = decimal_of(n / 10);
        assert(decimal_of(n).drop_last() =~= front);
        assert(decimal_of(n)[0] == front[0]);
        if front.len() == 1 {
            assert(front.drop_last() =~= Seq::<char>::empty());
            assert(number_of(front.drop_last()) == 0);
            assert(number_of(front) == front[0] as int - '0' as int);
        }
    } else {
        assert(decimal_of(n).drop_last() =~= Seq::<char>::empty());
        assert(number_of(decimal_of(n).drop_last()) == 0);
    }
}

/// Appending text without the separator adds to the last piece.
proof fn lemma_split_append(s: Seq<char>, tail: Seq<char>, c: char)
    requires
        !tail.contains(c),
    ensures
        split_of(s, c).len() >= 1,
        split_of(s + tail, c) == split_of(s, c).drop_last().push(split_of(s, c).last() + tail),
    decreases s.len() + tail.len(),
{
    if tail.len() == 0 {
        if s.len() > 0 {
            lemma_split_append(s.drop_last(), Seq::empty(), c);
        }
        assert(s + tail =~= s);
        assert(split_of(s, c).last() + tail =~= split_of(s, c).last());
        assert(split_of(s, c) =~= split_of(s, c).drop_last().push(split_of(s, c).last()));
    } else {
        let front = tail.drop_last();
        assert forall|x: char| front.contains(x) implies tail.contains(x) by {
            let i = choose|i: int| 0 <= i < front.len() && front[i] == x;
            assert(tail[i] == x);
        }
        lemma_split_append(s, front, c);
        assert(tail[tail.len() - 1] == tail.last());
        assert((s + tail).drop_last() =~= s + front);
        assert((s + tail).last() == tail.last());
        let before = split_of(s + front, c);
        assert(before.last().push(tail.last()) =~= split_of(s, c).last() + tail);
        assert(split_of(s + tail, c) =~= split_of(s, c).drop_last().push(
            split_of(s, c).last() + tail,
        ));
    }
}

/// A separator and text behind it make one more piece.
pub(crate) proof fn lemma_split_line(s: Seq<char>, tail: Seq<char>, c: char)
    requires
        !tail.contains(c),
    ensures
        split_of(s + seq![c] + tail, c) == split_of(s, c).push(tail),
{
    let begun = s + seq![c];
    assert(begun.drop_last() =~= s);
    assert(begun.last() == c);
    lemma_split_append(begun, tail, c);
    assert(split_of(begun, c) =~= split_of(s, c).push(seq![]));
    assert(Seq::<char>::empty() + tail =~= tail);
    assert(split_of(begun, c).drop_last().push(split_of(begun, c).last() + tail) =~= split_of(
        s,
        c,
    ).push(tail));
}

/// Text without the separator is one piece.
pub(crate) proof fn lemma_split_one(s: Seq<char>, c: char)
    requires
        !s.contains(c),
    ensures
        split_of(s, c) == seq![s],
{
    lemma_split_append(Seq::empty(), s, c);
    assert(Seq::<char>::empty() + s =~= s);
    assert(split_of(Seq::<char>::empty(), c) =~= seq![Seq::<char>::empty()]);
    assert(split_of(s, c) =~= seq![s]);
}

/// Some lines, one after the other.
pub open spec fn as_text(lines: Seq<Seq<char>>) -> Seq<char>
    decreases lines.len(),
{
    if lines.len() <= 1 {
        lines[0]
    } else {
        as_text(lines.drop_last()) + seq!['\n'] + lines.last()
    }
}

/// Joining lines puts one after the other.
pub(crate) proof fn lemma_joined_lines(lines: Seq<Seq<char>>)
    requires
        lines.len() > 0,
    ensures
        joined(lines, "\n"@) == as_text(lines),
    decreases lines.len(),
{
    reveal_strlit("\n");
    assert("\n"@ =~= seq!['\n']);
    if lines.len() > 1 {
        lemma_joined_lines(lines.drop_last());
    }
}

/// Lines that are joined come apart again as they were.
pub proof fn law_joined_lines_come_apart(lines: Seq<Seq<char>>)
    requires
        lines.len() > 0,
        forall|i: int| 0 <= i < lines.len() ==> !(#[trigger] lines[i]).contains('\n'),
    ensures
        split_of(joined(lines, "\n"@), '\n') == lines,
    decreases lines.len(),
{
    reveal_strlit("\n");
    assert("\n"@ =~= seq!['\n']);
    if lines.len() == 1 {
        lemma_split_one(lines[0], '\n');
        assert(lines =~= seq![lines[0]]);
    } else {
        let front = lines.drop_last();
        assert forall|i: int| 0 <= i < front.len() implies !(#[trigger] front[i]).contains('\n') by {
            assert(front[i] == lines[i]);
        }
        law_joined_lines_come_apart(front);
        assert(!lines[lines.len() - 1].contains('\n'));
        lemma_split_line(joined(front, "\n"@), lines.last(), '\n');
        assert(front.push(lines.last()) =~= lines);
    }
}

/// The texts of some strings are theirs, one by one, and that of an optional
/// string is its own.
pub proof fn law_texts_are_those_of_the_strings(strings: Seq<String>, optional: Option<String>)
    ensures
        texts(strings).len() == strings.len(),
        forall|i: int| 0 <= i < strings.len() ==> #[trigger] texts(strings)[i] == strings[i]@,
        optional is None <==> optional_text(optional) is None,
        optional matches Some(s) ==> optional_text(optional) == Some(s@),
{
}

/// The value of a lower-case hexadecimal digit; none for another character.
pub open spec fn hex_value(c: char) -> Option<int> {
    if '0' <= c <= '9' {
        Some(c as int - '0' as int)
    } else if 'a' <= c <= 'f' {
        Some(c as int - 'a' as int + 10)
    } else {
        None
    }
}

/// Hexadecimal spells each byte with two lower-case digits, the high one first,
/// in the order of the bytes.
pub proof fn law_hex_spells_the_bytes(bytes: &[u8], text: String)
    requires
        call_ensures(hex, (bytes,), text),
    ensures
        text@ == hex_of(bytes@),
        text@.len() == 2 * bytes@.len(),
        forall|i: int|
            0 <= i < bytes@.len() ==> {
                &&& hex_value(text@[2 * i]) is Some
                &&& hex_value(text@[2 * i + 1]) is Some
                &&& #[trigger] bytes@[i] == 16 * hex_value(text@[2 * i])->0 + hex_value(
                    text@[2 * i + 1],
                )->0
            },
{
    assert forall|i: int| 0 <= i < bytes@.len() implies {
        &&& hex_value(text@[2 * i]) is Some
        &&& hex_value(text@[2 * i + 1]) is Some
        &&& #[trigger] bytes@[i] == 16 * hex_value(text@[2 * i])->0 + hex_value(
            text@[2 * i + 1],
        )->0
    } by {
        assert((2 * i) / 2 == i && (2 * i) % 2 == 0);
        assert((2 * i + 1) / 2 == i && (2 * i + 1) % 2 == 1);
    }
}

/// The hash of a payload is its SHA-256 digest as [`hex`] spells it.
pub proof fn law_hashes_spell_the_digest(data: &[u8], digest: &[u8], hash: String, text: String)
    requires
        call_ensures(sha256_hex, (data,), hash),
        digest@ == sha256_of(data@),
        call_ensures(hex, (digest,), text),
    ensures
        hash@ == text@,
        hash@.len() == 64,
{
}

/// Text can stand in a header value if and only if it holds no control
/// character but the tab, and is read back if and only if it is ASCII, too.
pub proof fn law_header_text(s: &str, value: bool, visible: bool)
    requires
        call_ensures(value_text, (s,), value),
        call_ensures(visible_text, (s,), visible),
    ensures
        value <==> forall|i: int|
            0 <= i < s@.len() ==> #[trigger] s@[i] as int == 9 || s@[i] as int >= 32 && s@[i] as int
                != 127,
        visible <==> value && forall|i: int| 0 <= i < s@.len() ==> #[trigger] s@[i] as int <= 127,
{
    if value {
        assert forall|i: int| 0 <= i < s@.len() implies #[trigger] s@[i] as int == 9 || s@[i] as int
            >= 32 && s@[i] as int != 127 by {
            assert(is_value_char(s@[i]));
        }
    } else {
        let i = choose|i: int| 0 <= i < s@.len() && !is_value_char(#[trigger] s@[i]);
        assert(!(s@[i] as int == 9 || s@[i] as int >= 32 && s@[i] as int != 127));
    }
    if visible {
        assert forall|i: int| 0 <= i < s@.len() implies is_value_char(#[trigger] s@[i]) && s@[i] as int
            <= 127 by {
            assert(is_visible_char(s@[i]));
        }
    } else {
        let i = choose|i: int| 0 <= i < s@.len() && !is_visible_char(#[trigger] s@[i]);
        assert(!is_value_char(s@[i]) || s@[i] as int > 127);
    }
}

} // verus!
