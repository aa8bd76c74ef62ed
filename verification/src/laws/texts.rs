//! What the text operations promise.
use crate::outside::{
    first_bad_byte, hex_bytes, hex_refusal, hex_text, hex_value, law_hex_round_trip,
    lemma_one_refusal, HexRefusal,
};
use crate::text::{
    after_prefix, decimal, first_at, joined, joined_upto, lemma_text_le_antisymmetric,
    occurs_at, one_line, opt_pair, opt_text, split_first, text_le, texts,
    trimmed, trimmed_end, trimmed_start, white_space,
};
use vstd::prelude::*;
use vstd::utf8::*;

verus! {

/// Where a separator stands in a text at all, it stands somewhere first.
proof fn lemma_first_exists(s: Seq<char>, sep: Seq<char>, j: int)
    requires
        occurs_at(s, sep, j),
    ensures
        exists|i: int| first_at(s, sep, i),
    decreases j,
{
    if exists|k: int| 0 <= k < j && #[trigger] occurs_at(s, sep, k) {
        let k = choose|k: int| 0 <= k < j && #[trigger] occurs_at(s, sep, k);
        lemma_first_exists(s, sep, k);
    } else {
        assert(first_at(s, sep, j));
    }
}

proof fn lemma_occurs(s: Seq<char>, sep: Seq<char>, j: int)
    requires
        0 <= j <= s.len(),
    ensures
        occurs_at(s, sep, j) <==> sep.is_prefix_of(s.skip(j)),
{
    let n = sep.len() as int;
    if occurs_at(s, sep, j) {
        assert(s.skip(j).subrange(0, n) =~= s.subrange(j, j + n));
    }
    if sep.is_prefix_of(s.skip(j)) {
        assert(s.skip(j).subrange(0, n) =~= sep);
        assert(s.subrange(j, j + n) =~= s.skip(j).subrange(0, n));
    }
}

/// A text that is split is its two sides with the separator between them, and the
/// separator starts nowhere in it before; a text that is not split has the
/// separator nowhere.
pub proof fn law_split_is_at_the_first_separator(s: Seq<char>, sep: Seq<char>)
    ensures
        match split_first(s, sep) {
            Some((before, after)) => {
                &&& s == before + sep + after
                &&& forall|j: int|
                    0 <= j < before.len() ==> !sep.is_prefix_of(#[trigger] s.skip(j))
            },
            None => forall|j: int| 0 <= j <= s.len() ==> !sep.is_prefix_of(#[trigger] s.skip(j)),
        },
{
    if let Some((before, after)) = split_first(s, sep) {
        let i = choose|i: int| first_at(s, sep, i);
        assert(first_at(s, sep, i));
        assert(s =~= s.take(i) + s.subrange(i, i + sep.len()) + s.skip(i + sep.len()));
        assert forall|j: int| 0 <= j < before.len() implies !sep.is_prefix_of(
            #[trigger] s.skip(j),
        ) by {
            lemma_occurs(s, sep, j);
            assert(!occurs_at(s, sep, j));
        }
    } else {
        assert forall|j: int| 0 <= j <= s.len() implies !sep.is_prefix_of(
            #[trigger] s.skip(j),
        ) by {
            lemma_occurs(s, sep, j);
            if occurs_at(s, sep, j) {
                lemma_first_exists(s, sep, j);
            }
        }
    }
}

/// What follows a prefix is what the prefix must be joined to for the text.
pub proof fn law_what_follows_a_prefix(s: Seq<char>, prefix: Seq<char>, rest: Seq<char>)
    ensures
        after_prefix(s, prefix) == Some(rest) <==> s == prefix + rest,
{
    if after_prefix(s, prefix) == Some(rest) {
        assert(s =~= prefix + s.skip(prefix.len() as int));
    }
    if s == prefix + rest {
        assert(s.skip(prefix.len() as int) =~= rest);
        assert(prefix.is_prefix_of(s));
    }
}

/// The white space characters, one by one.
pub proof fn law_white_space_characters(c: char)
    ensures
        white_space(c) <==> (c == '\u{9}' || c == '\u{a}' || c == '\u{b}' || c == '\u{c}' || c
            == '\u{d}' || c == ' ' || c == '\u{85}' || c == '\u{a0}' || c == '\u{1680}' || c
            == '\u{2000}' || c == '\u{2001}' || c == '\u{2002}' || c == '\u{2003}' || c
            == '\u{2004}' || c == '\u{2005}' || c == '\u{2006}' || c == '\u{2007}' || c
            == '\u{2008}' || c == '\u{2009}' || c == '\u{200a}' || c == '\u{2028}' || c
            == '\u{2029}' || c == '\u{202f}' || c == '\u{205f}' || c == '\u{3000}'),
{
}

proof fn lemma_trim_start(s: Seq<char>) -> (a: Seq<char>)
    ensures
        s == a + trimmed_start(s),
        forall|i: int| 0 <= i < a.len() ==> white_space(#[trigger] a[i]),
        trimmed_start(s).len() > 0 ==> !white_space(trimmed_start(s)[0]),
    decreases s.len(),
{
    if s.len() > 0 && white_space(s[0]) {
        let a = lemma_trim_start(s.skip(1));
        let b = seq![s[0]] + a;
        assert(s =~= seq![s[0]] + s.skip(1));
        assert(s =~= b + trimmed_start(s));
        assert forall|i: int| 0 <= i < b.len() implies white_space(#[trigger] b[i]) by {
            if i > 0 {
                assert(b[i] == a[i - 1]);
            }
        }
        b
    } else {
        assert(s =~= Seq::<char>::empty() + s);
        Seq::empty()
    }
}

proof fn lemma_trim_end(s: Seq<char>) -> (b: Seq<char>)
    ensures
        s == trimmed_end(s) + b,
        forall|i: int| 0 <= i < b.len() ==> white_space(#[trigger] b[i]),
        trimmed_end(s).len() > 0 ==> !white_space(trimmed_end(s).last()),
    decreases s.len(),
{
    if s.len() > 0 && white_space(s.last()) {
        let b = lemma_trim_end(s.drop_last());
        assert(s =~= s.drop_last().push(s.last()));
        assert(s =~= trimmed_end(s) + b.push(s.last()));
        b.push(s.last())
    } else {
        assert(s =~= s + Seq::<char>::empty());
        Seq::empty()
    }
}

/// Trimming takes white space off both ends, and leaves none there.
pub proof fn law_trimming_takes_white_space_off_the_ends(s: Seq<char>)
    ensures
        trimmed(s).len() > 0 ==> !white_space(trimmed(s)[0]) && !white_space(trimmed(s).last()),
        exists|a: Seq<char>, b: Seq<char>|
            {
                &&& s == #[trigger] (a + trimmed(s) + b)
                &&& forall|i: int| 0 <= i < a.len() ==> white_space(#[trigger] a[i])
                &&& forall|i: int| 0 <= i < b.len() ==> white_space(#[trigger] b[i])
            },
{
    let a = lemma_trim_start(s);
    let b = lemma_trim_end(trimmed_start(s));
    assert(s =~= a + trimmed(s) + b);
    if trimmed(s).len() > 0 {
        assert(trimmed(s)[0] == trimmed_start(s)[0]);
    }
}

/// One line differs from a text in nothing but a space for each line break.
pub proof fn law_one_line_differs_in_line_breaks_only(s: Seq<char>)
    ensures
        one_line(s).len() == s.len(),
        forall|i: int|
            0 <= i < s.len() ==> #[trigger] one_line(s)[i] == (if s[i] == '\n' || s[i] == '\r' {
                ' '
            } else {
                s[i]
            }),
{
}

/// The number that a text of decimal digits stands for.
pub open spec fn decimal_value(s: Seq<char>) -> int
    decreases s.len(),
{
    if s.len() == 0 {
        0
    } else {
        decimal_value(s.drop_last()) * 10 + (s.last() as int - '0' as int)
    }
}

/// A number in decimal is digits that stand for it, without a leading zero.
pub proof fn law_decimal_stands_for_the_number(n: nat)
    ensures
        decimal_value(decimal(n)) == n,
        forall|i: int| 0 <= i < decimal(n).len() ==> '0' <= #[trigger] decimal(n)[i] <= '9',
        decimal(n).len() >= 1,
        n > 0 ==> decimal(n)[0] != '0',
        decimal(n).last() as int == '0' as int + n % 10,
        n >= 10 ==> decimal(n).drop_last() == decimal(n / 10),
    decreases n,
{
    if n < 10 {
        assert(decimal(n).drop_last() =~= Seq::<char>::empty());
        assert(decimal_value(Seq::<char>::empty()) == 0);
    } else {
        law_decimal_stands_for_the_number(n / 10);
        assert(decimal(n).drop_last() =~= decimal(n / 10));
    }
}

/// Different numbers are different in decimal.
pub proof fn law_decimal_tells_numbers_apart(m: nat, n: nat)
    requires
        decimal(m) == decimal(n),
    ensures
        m == n,
{
    law_decimal_stands_for_the_number(m);
    law_decimal_stands_for_the_number(n);
}

proof fn lemma_joined_upto_prefix(list: Seq<Seq<char>>, x: Seq<char>, sep: Seq<char>, n: nat)
    requires
        n <= list.len(),
    ensures
        joined_upto(list.push(x), sep, n) == joined_upto(list, sep, n),
    decreases n,
{
    if n > 1 {
        lemma_joined_upto_prefix(list, x, sep, (n - 1) as nat);
    }
}

/// Nothing joined is nothing, one item joined is the item, and each further item
/// comes behind a separator.
pub proof fn law_join_puts_separators_between(list: Seq<Seq<char>>, x: Seq<char>, sep: Seq<char>)
    ensures
        joined(Seq::<Seq<char>>::empty(), sep) == Seq::<char>::empty(),
        joined(seq![x], sep) == x,
        list.len() > 0 ==> joined(list.push(x), sep) == joined(list, sep) + sep + x,
{
    lemma_joined_upto_prefix(list, x, sep, list.len());
}

/// The order of texts is that of dictionaries: a text comes before its
/// continuations, and two others are told by the first character in which they
/// differ.
pub proof fn law_texts_are_ordered_as_in_a_dictionary(a: Seq<char>, b: Seq<char>)
    ensures
        a.is_prefix_of(b) ==> text_le(a, b),
        b.is_prefix_of(a) && a != b ==> !text_le(a, b),
        forall|i: int|
            0 <= i < a.len() && i < b.len() && a.take(i) == b.take(i) && #[trigger] a[i]
                != #[trigger] b[i] ==> (text_le(a, b) <==> a[i] < b[i]),
    decreases a.len(),
{
    if a.is_prefix_of(b) {
        lemma_prefix_le(a, b);
    }
    if b.is_prefix_of(a) && a != b {
        lemma_prefix_le(b, a);
        if text_le(a, b) {
            lemma_text_le_antisymmetric(a, b);
        }
    }
    assert forall|i: int|
        0 <= i < a.len() && i < b.len() && a.take(i) == b.take(i) && #[trigger] a[i]
            != #[trigger] b[i] implies (text_le(a, b) <==> a[i] < b[i]) by {
        lemma_first_difference(a, b, i);
    }
}

proof fn lemma_prefix_le(a: Seq<char>, b: Seq<char>)
    requires
        a.is_prefix_of(b),
    ensures
        text_le(a, b),
    decreases a.len(),
{
    if a.len() > 0 {
        assert(a =~= b.subrange(0, a.len() as int));
        assert(a[0] == b[0]);
        assert(a.skip(1) =~= b.skip(1).subrange(0, a.len() - 1));
        lemma_prefix_le(a.skip(1), b.skip(1));
    }
}

proof fn lemma_first_difference(a: Seq<char>, b: Seq<char>, i: int)
    requires
        0 <= i < a.len(),
        i < b.len(),
        a.take(i) == b.take(i),
        a[i] != b[i],
    ensures
        text_le(a, b) <==> a[i] < b[i],
    decreases i,
{
    if i > 0 {
        assert(a[0] == a.take(i)[0] && b[0] == b.take(i)[0]);
        assert(a.skip(1).take(i - 1) =~= a.take(i).skip(1));
        assert(b.skip(1).take(i - 1) =~= b.take(i).skip(1));
        assert(a.skip(1)[i - 1] == a[i]);
        assert(b.skip(1)[i - 1] == b[i]);
        lemma_first_difference(a.skip(1), b.skip(1), i - 1);
    }
}

/// The texts of strings are their characters, one text for each string.
pub proof fn law_texts_are_the_characters(list: Seq<String>, s: String, t: &str, u: &str)
    ensures
        texts(list).len() == list.len(),
        forall|i: int| 0 <= i < list.len() ==> #[trigger] texts(list)[i] == list[i]@,
        opt_text(Some(s)) == Some(s@),
        opt_text(None) is None,
        opt_pair(Some((t, u))) == Some((t@, u@)),
        opt_pair(None) is None,
{
}

/// Hexadecimal has two digits for each byte: that of its sixteens, and that of its
/// ones.
pub proof fn law_hex_digits_of_a_byte(bytes: Seq<u8>)
    ensures
        hex_text(bytes).len() == 2 * bytes.len(),
        forall|i: int|
            0 <= i < bytes.len() ==> {
                let (high, low) = (#[trigger] bytes[i] as int / 16, bytes[i] as int % 16);
                &&& hex_text(bytes)[2 * i] == "0123456789abcdef"@[high]
                &&& hex_text(bytes)[2 * i + 1] == "0123456789abcdef"@[low]
            },
{
    reveal_strlit("0123456789abcdef");
    assert forall|i: int| 0 <= i < bytes.len() implies {
        let (high, low) = (#[trigger] bytes[i] as int / 16, bytes[i] as int % 16);
        &&& hex_text(bytes)[2 * i] == "0123456789abcdef"@[high]
        &&& hex_text(bytes)[2 * i + 1] == "0123456789abcdef"@[low]
    } by {
        assert((2 * i) / 2 == i && (2 * i + 1) / 2 == i);
        assert((2 * i) % 2 == 0 && (2 * i + 1) % 2 == 1);
    }
}

/// A character is the hexadecimal digit of value `d`, in either case.
pub open spec fn is_digit_of(c: char, d: int) -> bool {
    ||| c == "0123456789abcdef"@[d]
    ||| c == "0123456789ABCDEF"@[d]
}

/// Text is read as bytes exactly where it has, for each byte, the digits of its
/// sixteens and of its ones, in either case.
pub proof fn law_hex_is_read_by_digit_pairs(text: Seq<char>, bytes: Seq<u8>)
    ensures
        hex_bytes(text) == Some(bytes) <==> text.len() == 2 * bytes.len() && forall|i: int|
            0 <= i < bytes.len() ==> is_digit_of(text[2 * i], #[trigger] bytes[i] as int / 16)
                && is_digit_of(text[2 * i + 1], bytes[i] as int % 16),
{
    reveal_strlit("0123456789abcdef");
    reveal_strlit("0123456789ABCDEF");
    if hex_bytes(text) == Some(bytes) {
        assert forall|i: int| 0 <= i < bytes.len() implies is_digit_of(
            text[2 * i],
            #[trigger] bytes[i] as int / 16,
        ) && is_digit_of(text[2 * i + 1], bytes[i] as int % 16) by {
            lemma_digit_value(text[2 * i]);
            lemma_digit_value(text[2 * i + 1]);
        }
    }
    if text.len() == 2 * bytes.len() && forall|i: int|
        0 <= i < bytes.len() ==> is_digit_of(text[2 * i], #[trigger] bytes[i] as int / 16)
            && is_digit_of(text[2 * i + 1], bytes[i] as int % 16) {
        assert forall|j: int| 0 <= j < text.len() implies hex_value(
            #[trigger] text[j],
        ) >= 0 by {
            let b = bytes[j / 2];
            assert(j == 2 * (j / 2) || j == 2 * (j / 2) + 1);
            lemma_value_digit(text[2 * (j / 2)], b as int / 16);
            lemma_value_digit(text[2 * (j / 2) + 1], b as int % 16);
        }
        let read = hex_bytes(text)->0;
        assert forall|i: int| 0 <= i < bytes.len() implies read[i] == bytes[i] by {
            lemma_value_digit(text[2 * i], bytes[i] as int / 16);
            lemma_value_digit(text[2 * i + 1], bytes[i] as int % 16);
        }
        assert(read =~= bytes);
    }
}

proof fn lemma_digit_value(c: char)
    requires
        hex_value(c) >= 0,
    ensures
        0 <= hex_value(c) < 16,
        is_digit_of(c, hex_value(c)),
{
    reveal_strlit("0123456789abcdef");
    reveal_strlit("0123456789ABCDEF");
}

proof fn lemma_value_digit(c: char, d: int)
    requires
        0 <= d < 16,
        is_digit_of(c, d),
    ensures
        hex_value(c) == d,
{
    reveal_strlit("0123456789abcdef");
    reveal_strlit("0123456789ABCDEF");
}

/// A text with an odd number of bytes is refused for that; another one for its
/// first byte that is no digit.
pub proof fn law_hex_is_refused_for_the_first_fault(text: Seq<char>, index: usize)
    ensures
        encode_utf8(text).len() % 2 == 1 ==> hex_refusal(text) == HexRefusal::OddLength,
        ({
            let bytes = encode_utf8(text);
            bytes.len() % 2 == 0 && index < bytes.len() && hex_value(bytes[index as int] as char)
                < 0 && (forall|j: int|
                0 <= j < index ==> hex_value(#[trigger] bytes[j] as char) >= 0) ==> hex_refusal(text)
                == (HexRefusal::InvalidCharacter { c: bytes[index as int] as char, index })
        }),
{
    let bytes = encode_utf8(text);
    if bytes.len() % 2 == 1 {
        lemma_one_refusal(text, HexRefusal::OddLength);
    } else if index < bytes.len() && hex_value(bytes[index as int] as char) < 0 && (forall|j: int|
        0 <= j < index ==> hex_value(#[trigger] bytes[j] as char) >= 0) {
        assert(first_bad_byte(bytes, index as int));
        lemma_one_refusal(
            text,
            HexRefusal::InvalidCharacter { c: bytes[index as int] as char, index },
        );
    }
}

/// Different bytes are different in hexadecimal.
pub proof fn law_hex_tells_bytes_apart(a: Seq<u8>, b: Seq<u8>)
    requires
        hex_text(a) == hex_text(b),
    ensures
        a == b,
{
    law_hex_round_trip(a);
    law_hex_round_trip(b);
}

} // verus!
