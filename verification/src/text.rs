//! Text primitives that the rest of the library builds on: trimming and
//! splitting of lines, comparison of string slices, and decimal numbers.

use vstd::prelude::*;
use vstd::string::*;
use vstd::utf8::{is_ascii_chars, valid_utf8};

verus! {

/// The texts that a list of strings holds.
pub open spec fn texts_of(strings: Seq<String>) -> Seq<Seq<char>> {
    Seq::new(strings.len(), |i: int| strings[i]@)
}

/// Adds a copy of a text to the end of a list.
pub fn push_text(list: &mut Vec<String>, text: &str)
    ensures
        texts_of(final(list)@) == texts_of(old(list)@).push(text@),
{
    list.push(text.to_owned());
    assert(texts_of(list@) =~= texts_of(old(list)@).push(text@));
}

/// Whether a character is white space in the sense of Unicode: the
/// characters that have `White_Space` there, which `char::is_whitespace`
/// of std goes by.
pub open spec fn is_whitespace(c: char) -> bool {
    let v = c as u32;
    ||| 0x09 <= v <= 0x0D
    ||| v == 0x20
    ||| v == 0x85
    ||| v == 0xA0
    ||| v == 0x1680
    ||| 0x2000 <= v <= 0x200A
    ||| v == 0x2028
    ||| v == 0x2029
    ||| v == 0x202F
    ||| v == 0x205F
    ||| v == 0x3000
}

/// The text without its leading whitespace.
pub open spec fn trim_start(s: Seq<char>) -> Seq<char>
    decreases s.len(),
{
    if s.len() > 0 && is_whitespace(s.first()) {
        trim_start(s.drop_first())
    } else {
        s
    }
}

/// The text without its trailing whitespace.
pub open spec fn trim_end(s: Seq<char>) -> Seq<char>
    decreases s.len(),
{
    if s.len() > 0 && is_whitespace(s.last()) {
        trim_end(s.drop_last())
    } else {
        s
    }
}

/// The text without whitespace at either end.
pub open spec fn trimmed(s: Seq<char>) -> Seq<char> {
    trim_end(trim_start(s))
}

/// The position of the first `c` in `s`, or the length of `s` where it holds none.
pub open spec fn first_index_of(s: Seq<char>, c: char) -> int
    decreases s.len(),
{
    if s.len() == 0 || s.first() == c {
        0
    } else {
        1 + first_index_of(s.drop_first(), c)
    }
}

/// `str::eq` of std: two string slices are equal when they hold the same
/// characters.
pub assume_specification[ <str as PartialEq>::eq ](a: &str, b: &str) -> (r: bool)
    ensures
        r == (a@ == b@),
;

/// `str::trim` of std: the slice without the leading and trailing characters
/// that are white space in the sense of Unicode.
pub assume_specification<'a>[ str::trim ](s: &'a str) -> (r: &'a str)
    ensures
        r@ == trimmed(s@),
;

/// `str::split_once` of std with a character as delimiter: nothing where the
/// delimiter does not occur, else what stands before its first occurrence
/// and what stands after it.
#[verifier::external_body]
pub(crate) fn split_once_char<'a>(s: &'a str, delimiter: char) -> (r: Option<(&'a str, &'a str)>)
    ensures
        match r {
            None => !s@.contains(delimiter),
            Some((head, tail)) => {
                &&& !head@.contains(delimiter)
                &&& s@ == head@ + seq![delimiter] + tail@
            },
        },
{
    s.split_once(delimiter)
}

/// The error of `str::from_utf8` of std. Nothing is said of what it holds.
#[verifier::external_type_specification]
#[verifier::external_body]
pub struct ExUtf8Error(std::str::Utf8Error);

/// `str::from_utf8` of std: the text that the bytes encode, where they are
/// valid UTF-8, and an error where they are not.
pub assume_specification<'a>[ std::str::from_utf8 ](bytes: &'a [u8]) -> (r: Result<
    &'a str,
    std::str::Utf8Error,
>)
    ensures
        match r {
            Ok(text) => valid_utf8(bytes@) && text.spec_bytes() == bytes@,
            Err(_) => !valid_utf8(bytes@),
        },
;

/// A text cut at the first occurrence of a character has that occurrence at
/// the length of the first part.
pub proof fn lemma_first_index_of_parts(head: Seq<char>, c: char, tail: Seq<char>)
    requires
        !head.contains(c),
    ensures
        first_index_of(head + seq![c] + tail, c) == head.len(),
    decreases head.len(),
{
    let s = head + seq![c] + tail;
    if head.len() == 0 {
        assert(s.first() == c);
    } else {
        assert(head.contains(head[0]));
        assert(s.first() == head[0]);
        let rest = head.drop_first();
        assert(s.drop_first() =~= rest + seq![c] + tail);
        assert forall|i: int| 0 <= i < rest.len() implies rest[i] != c by {
            assert(head.contains(head[i + 1]));
        }
        lemma_first_index_of_parts(rest, c, tail);
    }
}

/// Whether a character is one of the ten decimal digits.
pub open spec fn is_digit(c: char) -> bool {
    '0' <= c && c <= '9'
}

/// Whether a text is made of decimal digits alone.
pub open spec fn all_digits(s: Seq<char>) -> bool {
    forall|i: int| 0 <= i < s.len() ==> is_digit(#[trigger] s[i])
}

/// The number that a text of decimal digits writes.
pub open spec fn digits_value(s: Seq<char>) -> int
    decreases s.len(),
{
    if s.len() == 0 {
        0
    } else {
        digits_value(s.drop_last()) * 10 + (s.last() as u32 - 48)
    }
}

/// The text without a plus sign in front of it.
pub open spec fn unsigned_part(s: Seq<char>) -> Seq<char> {
    if s.len() > 0 && s.first() == '+' {
        s.drop_first()
    } else {
        s
    }
}

/// The `u64` that a text writes in decimal: digits, at least one, with a plus
/// sign before them or none, and a value that fits.
pub open spec fn decimal_u64(s: Seq<char>) -> Option<u64> {
    let digits = unsigned_part(s);
    if digits.len() > 0 && all_digits(digits) && digits_value(digits) <= u64::MAX {
        Some(digits_value(digits) as u64)
    } else {
        None
    }
}

/// A longer text of digits writes a number that is no smaller than the one
/// that its beginning writes.
pub proof fn lemma_digits_value_grows(s: Seq<char>, k: int)
    requires
        all_digits(s),
        0 <= k <= s.len(),
    ensures
        0 <= digits_value(s.take(k)) <= digits_value(s),
    decreases s.len() - k,
{
    if k == s.len() {
        assert(s.take(k) =~= s);
        lemma_digits_value_nonnegative(s);
    } else {
        let front = s.drop_last();
        assert(front.take(k) =~= s.take(k));
        assert(all_digits(front)) by {
            assert forall|i: int| 0 <= i < front.len() implies is_digit(#[trigger] front[i]) by {
                assert(front[i] == s[i]);
            }
        }
        lemma_digits_value_grows(front, k);
        assert(is_digit(s[s.len() - 1]));
    }
}

/// A text of digits writes no negative number.
pub proof fn lemma_digits_value_nonnegative(s: Seq<char>)
    requires
        all_digits(s),
    ensures
        0 <= digits_value(s),
    decreases s.len(),
{
    if s.len() > 0 {
        let front = s.drop_last();
        assert forall|i: int| 0 <= i < front.len() implies is_digit(#[trigger] front[i]) by {
            assert(front[i] == s[i]);
        }
        lemma_digits_value_nonnegative(front);
        assert(is_digit(s[s.len() - 1]));
    }
}

/// Reads a `u64` written in decimal, as `str::parse::<u64>` does: `None`
/// for the empty text, a lone sign, any character that is no digit, and a
/// value above `u64::MAX`.
pub fn parse_u64(s: &str) -> (r: Option<u64>)
    ensures
        r == decimal_u64(s@),
{
    broadcast use is_ascii_spec_bytes;

    let ghost digits = unsigned_part(s@);
    if !s.is_ascii() {
        proof {
            let i = choose|i: int| 0 <= i < s@.len() && !('\0' <= #[trigger] s@[i] <= '\u{7f}');
            if s@.first() == '+' {
                assert(i >= 1);
                assert(!is_digit(digits[i - 1]));
            } else {
                assert(!is_digit(digits[i]));
            }
        }
        return None;
    }
    let bytes = s.as_bytes();
    let n = bytes.len();
    assert(n == s@.len());
    assert(forall|i: int| 0 <= i < n ==> bytes@[i] == s@[i] as u8);
    let start: usize = if n > 0 && bytes[0] == 43u8 { 1 } else { 0 };
    assert(s@.len() > 0 ==> (s@.first() == '+' <==> s@[0] as u8 == 43u8));
    assert(digits.len() == n - start);
    if start == n {
        return None;
    }
    let mut acc: u64 = 0;
    let mut i: usize = start;
    while i < n
        invariant
            start <= i <= n,
            n == s@.len(),
            n == bytes@.len(),
            digits == unsigned_part(s@),
            digits.len() == n - start,
            is_ascii_chars(s@),
            forall|j: int| 0 <= j < n ==> bytes@[j] == s@[j] as u8,
            forall|j: int| 0 <= j < digits.len() ==> digits[j] == s@[j + start],
            all_digits(digits.take(i - start)),
            acc == digits_value(digits.take(i - start)),
        decreases n - i,
    {
        let b = bytes[i];
        let ghost c = digits[i - start];
        assert(c == s@[i as int]);
        assert('\0' <= c <= '\u{7f}');
        assert(is_digit(c) <==> 48 <= b <= 57);
        if b < 48 || b > 57 {
            return None;
        }
        let d: u64 = (b - 48) as u64;
        let ghost longer = digits.take(i - start + 1);
        assert(longer.drop_last() =~= digits.take(i - start));
        assert(longer.last() == c);
        assert(c as u32 - 48 == d);
        assert(digits_value(longer) == acc * 10 + d);
        assert(all_digits(longer)) by {
            assert forall|j: int| 0 <= j < longer.len() implies is_digit(#[trigger] longer[j]) by {
                if j < i - start {
                    assert(longer[j] == digits.take(i - start)[j]);
                }
            }
        }
        if acc > (u64::MAX - d) / 10 {
            proof {
                if all_digits(digits) {
                    lemma_digits_value_grows(digits, i - start + 1);
                }
            }
            return None;
        }
        acc = acc * 10 + d;
        i += 1;
    }
    assert(digits.take(i - start) =~= digits);
    Some(acc)
}

} // verus!
