//! Text building and scanning over the characters of a string.
//!
//! Everything here is described by the sequence of characters that a string
//! holds, so the rest of the crate never reasons about encodings.

use vstd::prelude::*;
use vstd::string::*;
use vstd::utf8::*;

verus! {

/// `String::push` appends one character.
pub assume_specification[ String::push ](text: &mut String, c: char)
    ensures
        final(text)@ == old(text)@.push(c),
;

/// The White_Space property of Unicode.
pub open spec fn white_space(c: char) -> bool {
    ||| '\u{9}' <= c <= '\u{d}'
    ||| c == ' '
    ||| c == '\u{85}'
    ||| c == '\u{a0}'
    ||| c == '\u{1680}'
    ||| '\u{2000}' <= c <= '\u{200a}'
    ||| c == '\u{2028}'
    ||| c == '\u{2029}'
    ||| c == '\u{202f}'
    ||| c == '\u{205f}'
    ||| c == '\u{3000}'
}

/// The debug rendering of a text, as `{:?}` gives it.
pub uninterp spec fn debug_text(text: Seq<char>) -> Seq<char>;

/// The debug rendering of `str` (`{:?}`): the text in double quotes, escaped.
/// The rendering depends on the text alone and is named, not spelled out.
#[verifier::external_body]
pub(crate) fn quoted(text: &str) -> (r: String)
    ensures
        r@ == debug_text(text@),
{
    format!("{:?}", text)
}

/// `a` followed by `b`.
pub(crate) fn join2(a: &str, b: &str) -> (r: String)
    ensures
        r@ == a@ + b@,
{
    let mut out: String = a.to_owned();
    out.append(b);
    out
}

/// `a`, `b` and `c`, one after the other.
pub(crate) fn join3(a: &str, b: &str, c: &str) -> (r: String)
    ensures
        r@ == a@ + b@ + c@,
{
    let mut out: String = a.to_owned();
    out.append(b);
    out.append(c);
    out
}

/// Whether two texts are equal.
pub(crate) fn same(a: &str, b: &str) -> (r: bool)
    ensures
        r == (a@ == b@),
{
    let x: &[u8] = a.as_bytes();
    let y: &[u8] = b.as_bytes();
    proof {
        encode_utf8_decode_utf8(a@);
        encode_utf8_decode_utf8(b@);
    }
    if x.len() != y.len() {
        return false;
    }
    let mut i: usize = 0;
    while i < x.len()
        invariant
            i <= x@.len(),
            x@.len() == y@.len(),
            x@ == encode_utf8(a@),
            y@ == encode_utf8(b@),
            forall|j: int| 0 <= j < i ==> x@[j] == y@[j],
        decreases x@.len() - i,
    {
        if x[i] != y[i] {
            return false;
        }
        i += 1;
    }
    assert(x@ =~= y@);
    true
}

/// `text` without `prefix`, or `None` where it does not begin with it.
pub open spec fn without_prefix(text: Seq<char>, prefix: Seq<char>) -> Option<Seq<char>> {
    if prefix.is_prefix_of(text) {
        Some(text.skip(prefix.len() as int))
    } else {
        None
    }
}

/// `text` without `prefix`, or `None` where it does not begin with it.
pub(crate) fn strip_prefix<'a>(text: &'a str, prefix: &str) -> (r: Option<&'a str>)
    ensures
        match r {
            Some(rest) => without_prefix(text@, prefix@) == Some(rest@),
            None => without_prefix(text@, prefix@) is None,
        },
{
    let n: usize = prefix.unicode_len();
    let len: usize = text.unicode_len();
    if len < n {
        return None;
    }
    if !same(text.substring_char(0, n), prefix) {
        return None;
    }
    assert(prefix@ =~= text@.subrange(0, n as int));
    assert(text@.subrange(n as int, len as int) =~= text@.skip(n as int));
    Some(text.substring_char(n, len))
}

/// Whether the text begins with a dash.
pub(crate) fn starts_with_dash(text: &str) -> (r: bool)
    ensures
        r == (text@.len() > 0 && text@[0] == '-'),
{
    if text.is_empty() {
        return false;
    }
    text.get_char(0) == '-'
}

/// The first line of a text, without the newline that ends it.
pub open spec fn first_line_of(text: Seq<char>) -> Seq<char>
    decreases text.len(),
{
    if text.len() == 0 || text[0] == '\n' {
        Seq::empty()
    } else {
        seq![text[0]] + first_line_of(text.drop_first())
    }
}

pub(crate) proof fn lemma_first_line(text: Seq<char>, n: int)
    requires
        0 <= n <= text.len(),
        n == text.len() || text[n] == '\n',
        forall|i: int| 0 <= i < n ==> text[i] != '\n',
    ensures
        first_line_of(text) == text.take(n),
    decreases n,
{
    if n > 0 {
        let rest = text.drop_first();
        assert forall|i: int| 0 <= i < n - 1 implies rest[i] != '\n' by {
            assert(rest[i] == text[i + 1]);
        }
        lemma_first_line(rest, n - 1);
        assert(text.take(n) =~= seq![text[0]] + rest.take(n - 1));
    } else {
        assert(text.take(0) =~= Seq::empty());
    }
}

/// The first line of a text, without the newline that ends it.
pub(crate) fn first_line(text: &str) -> (r: &str)
    ensures
        r@ == first_line_of(text@),
{
    let len: usize = text.unicode_len();
    let mut n: usize = 0;
    while n < len && text.get_char(n) != '\n'
        invariant
            n <= len,
            len == text@.len(),
            forall|i: int| 0 <= i < n ==> text@[i] != '\n',
        decreases len - n,
    {
        n += 1;
    }
    proof {
        lemma_first_line(text@, n as int);
        assert(text@.subrange(0, n as int) =~= text@.take(n as int));
    }
    text.substring_char(0, n)
}

/// Whether a character has the White_Space property.
fn is_white_space(c: char) -> (r: bool)
    ensures
        r == white_space(c),
{
    ('\u{9}' <= c && c <= '\u{d}') || c == ' ' || c == '\u{85}' || c == '\u{a0}' || c == '\u{1680}' || (
    '\u{2000}' <= c && c <= '\u{200a}') || c == '\u{2028}' || c == '\u{2029}' || c == '\u{202f}' || c
        == '\u{205f}' || c == '\u{3000}'
}

/// The text without the white space at its beginning.
pub open spec fn trim_start(text: Seq<char>) -> Seq<char>
    decreases text.len(),
{
    if text.len() > 0 && white_space(text[0]) {
        trim_start(text.drop_first())
    } else {
        text
    }
}

/// The text without the white space at its end.
pub open spec fn trim_end(text: Seq<char>) -> Seq<char>
    decreases text.len(),
{
    if text.len() > 0 && white_space(text.last()) {
        trim_end(text.drop_last())
    } else {
        text
    }
}

/// The text without the white space at its two ends.
pub open spec fn trimmed(text: Seq<char>) -> Seq<char> {
    trim_end(trim_start(text))
}

/// The text without the white space at its two ends.
pub(crate) fn trim(text: &str) -> (r: &str)
    ensures
        r@ == trimmed(text@),
{
    let len: usize = text.unicode_len();
    let mut from: usize = 0;
    assert(text@.skip(0) =~= text@);
    while from < len && is_white_space(text.get_char(from))
        invariant
            from <= len,
            len == text@.len(),
            trim_start(text@.skip(from as int)) == trim_start(text@),
        decreases len - from,
    {
        assert(text@.skip(from as int).drop_first() =~= text@.skip(from + 1));
        from += 1;
    }
    let mut to: usize = len;
    assert(text@.subrange(from as int, len as int) =~= text@.skip(from as int));
    while from < to && is_white_space(text.get_char(to - 1))
        invariant
            from <= to <= len,
            len == text@.len(),
            trim_end(text@.subrange(from as int, to as int)) == trimmed(text@),
        decreases to - from,
    {
        assert(text@.subrange(from as int, to as int).drop_last() =~= text@.subrange(
            from as int,
            to - 1,
        ));
        to -= 1;
    }
    text.substring_char(from, to)
}

/// A character with `A` to `Z` made small.
pub open spec fn lower_char(c: char) -> char {
    if 'A' <= c <= 'Z' {
        (c as u32 + 32) as char
    } else {
        c
    }
}

/// A character with `a` to `z` made large.
pub open spec fn upper_char(c: char) -> char {
    if 'a' <= c <= 'z' {
        (c as u32 - 32) as char
    } else {
        c
    }
}

/// The text with `A` to `Z` made small and every other character kept.
pub(crate) fn ascii_lower(text: &str) -> (r: String)
    ensures
        r@ == text@.map_values(|c: char| lower_char(c)),
{
    let len: usize = text.unicode_len();
    let mut out: String = String::new();
    let mut i: usize = 0;
    while i < len
        invariant
            i <= len,
            len == text@.len(),
            out@ == text@.take(i as int).map_values(|c: char| lower_char(c)),
        decreases len - i,
    {
        let c: char = text.get_char(i);
        let small: char = if 'A' <= c && c <= 'Z' {
            (c as u8 + 32) as char
        } else {
            c
        };
        out.push(small);
        assert(text@.take(i + 1) =~= text@.take(i as int).push(c));
        i += 1;
    }
    assert(text@.take(len as int) =~= text@);
    out
}

/// The text with `a` to `z` made large and every other character kept.
pub(crate) fn ascii_upper(text: &str) -> (r: String)
    ensures
        r@ == text@.map_values(|c: char| upper_char(c)),
{
    let len: usize = text.unicode_len();
    let mut out: String = String::new();
    let mut i: usize = 0;
    while i < len
        invariant
            i <= len,
            len == text@.len(),
            out@ == text@.take(i as int).map_values(|c: char| upper_char(c)),
        decreases len - i,
    {
        let c: char = text.get_char(i);
        let large: char = if 'a' <= c && c <= 'z' {
            (c as u8 - 32) as char
        } else {
            c
        };
        out.push(large);
        assert(text@.take(i + 1) =~= text@.take(i as int).push(c));
        i += 1;
    }
    assert(text@.take(len as int) =~= text@);
    out
}

/// Whether a character is a decimal digit.
pub open spec fn is_digit(c: char) -> bool {
    '0' <= c <= '9'
}

/// The number that a row of decimal digits stands for.
pub open spec fn digits_value(digits: Seq<char>) -> nat
    decreases digits.len(),
{
    if digits.len() == 0 {
        0
    } else {
        digits_value(digits.drop_last()) * 10 + (digits.last() as u32 - '0' as u32) as nat
    }
}

/// A text with one leading plus sign removed, where there is one.
pub open spec fn without_plus(text: Seq<char>) -> Seq<char> {
    if text.len() > 0 && text[0] == '+' {
        text.drop_first()
    } else {
        text
    }
}

/// The number that a text writes down: an optional plus sign and at least one
/// decimal digit, with a value that fits 64 bits.
pub open spec fn number_of(text: Seq<char>) -> Option<u64> {
    let digits = without_plus(text);
    if digits.len() > 0 && (forall|i: int| 0 <= i < digits.len() ==> is_digit(#[trigger] digits[i]))
        && digits_value(digits) <= u64::MAX {
        Some(digits_value(digits) as u64)
    } else {
        None
    }
}

proof fn lemma_digits_value_grows(digits: Seq<char>, n: int)
    requires
        0 <= n <= digits.len(),
    ensures
        digits_value(digits.take(n)) <= digits_value(digits),
    decreases digits.len() - n,
{
    if n < digits.len() {
        lemma_digits_value_grows(digits, n + 1);
        assert(digits.take(n + 1).drop_last() =~= digits.take(n));
    } else {
        assert(digits.take(n) =~= digits);
    }
}

/// Reads a number of 64 bits from its decimal digits.
pub(crate) fn parse_number(text: &str) -> (r: Option<u64>)
    ensures
        r == number_of(text@),
{
    let len: usize = text.unicode_len();
    let start: usize = if len > 0 && text.get_char(0) == '+' {
        1
    } else {
        0
    };
    let ghost digits = without_plus(text@);
    assert(digits =~= text@.skip(start as int));
    if start == len {
        return None;
    }
    let mut value: u64 = 0;
    let mut i: usize = start;
    assert(digits.take(0) =~= Seq::empty());
    while i < len
        invariant
            start <= i <= len,
            start < len,
            len == text@.len(),
            digits == without_plus(text@),
            digits == text@.skip(start as int),
            value == digits_value(digits.take(i - start)),
            forall|j: int| 0 <= j < i - start ==> is_digit(#[trigger] digits[j]),
        decreases len - i,
    {
        let c: char = text.get_char(i);
        assert(c == digits[i - start]);
        if !('0' <= c && c <= '9') {
            return None;
        }
        proof {
            assert(digits.take(i - start + 1).drop_last() =~= digits.take(i - start));
            lemma_digits_value_grows(digits, i - start + 1);
        }
        let digit: u64 = (c as u8 - 48) as u64;
        value = match value.checked_mul(10) {
            Some(tens) => match tens.checked_add(digit) {
                Some(sum) => sum,
                None => {
                    return None;
                },
            },
            None => {
                return None;
            },
        };
        i += 1;
    }
    assert(digits.take(len - start) =~= digits);
    Some(value)
}

/// The decimal digits of a number, without leading zeros.
pub open spec fn decimal_text(n: nat) -> Seq<char>
    decreases n,
{
    if n < 10 {
        seq![('0' as u32 + n) as char]
    } else {
        decimal_text(n / 10).push(('0' as u32 + n % 10) as char)
    }
}

/// The decimal digits of a number, without leading zeros.
pub(crate) fn decimal(n: u64) -> (r: String)
    ensures
        r@ == decimal_text(n as nat),
    decreases n,
{
    let digit: char = (48 + (n % 10) as u8) as char;
    let mut out: String = if n < 10 {
        String::new()
    } else {
        decimal(n / 10)
    };
    out.push(digit);
    out
}

/// The decimal digits of a number, behind a minus sign where it is negative.
pub open spec fn signed_text(n: int) -> Seq<char> {
    if n < 0 {
        seq!['-'] + decimal_text((-n) as nat)
    } else {
        decimal_text(n as nat)
    }
}

/// The decimal digits of a number, behind a minus sign where it is negative.
pub(crate) fn signed_decimal(n: i32) -> (r: String)
    ensures
        r@ == signed_text(n as int),
{
    if n < 0 {
        let mut out: String = String::new();
        out.push('-');
        let size: u64 = (-(n as i64)) as u64;
        out.append(decimal(size).as_str());
        assert(out@ =~= signed_text(n as int));
        out
    } else {
        decimal(n as u64)
    }
}

/// The first line is a prefix of the text without a newline, and what follows it,
/// if anything does, begins with the newline.
pub proof fn first_line_is_maximal(text: Seq<char>)
    ensures
        first_line_of(text).is_prefix_of(text),
        !first_line_of(text).contains('\n'),
        first_line_of(text).len() < text.len() ==> text[first_line_of(text).len() as int] == '\n',
    decreases text.len(),
{
    if text.len() > 0 && text[0] != '\n' {
        let rest = text.drop_first();
        first_line_is_maximal(rest);
        let line = first_line_of(rest);
        let whole = first_line_of(text);
        assert(whole =~= text.subrange(0, whole.len() as int)) by {
            assert(line =~= rest.subrange(0, line.len() as int));
            assert forall|i: int| 0 <= i < whole.len() implies whole[i] == text[i] by {
                if i > 0 {
                    assert(whole[i] == line[i - 1]);
                    assert(line[i - 1] == rest[i - 1]);
                }
            }
        }
        assert forall|i: int| 0 <= i < whole.len() implies whole[i] != '\n' by {
            if i > 0 {
                assert(line.contains(line[i - 1]));
            }
        }
        if line.len() < rest.len() {
            assert(rest[line.len() as int] == text[line.len() as int + 1]);
        }
    }
}

/// Making letters small changes nothing but the letters `A` to `Z`, each of which
/// becomes its small form; making letters large undoes that.
pub proof fn letters_keep_their_place(c: char)
    ensures
        'A' <= c <= 'Z' ==> 'a' <= lower_char(c) <= 'z' && lower_char(c) as int - 'a' as int
            == c as int - 'A' as int,
        'A' <= c <= 'Z' ==> upper_char(lower_char(c)) == c && upper_char(c) == c,
        'a' <= c <= 'z' ==> 'A' <= upper_char(c) <= 'Z' && upper_char(c) as int - 'A' as int
            == c as int - 'a' as int,
        'a' <= c <= 'z' ==> lower_char(upper_char(c)) == c && lower_char(c) == c,
        !('A' <= c <= 'Z') && !('a' <= c <= 'z') ==> lower_char(c) == c && upper_char(c) == c,
{
}

/// Trimming takes white space from the two ends of a text and nothing else: what
/// is left stands in the text, between white space, and neither begins nor ends
/// with any.
pub proof fn trimming_takes_white_space_only(text: Seq<char>) -> (from: int)
    ensures
        ({
            let to = from + trimmed(text).len();
            &&& 0 <= from <= to <= text.len()
            &&& trimmed(text) == text.subrange(from, to)
            &&& forall|i: int| 0 <= i < from ==> white_space(#[trigger] text[i])
            &&& forall|i: int| to <= i < text.len() ==> white_space(#[trigger] text[i])
            &&& trimmed(text).len() > 0 ==> !white_space(trimmed(text)[0]) && !white_space(
                trimmed(text).last(),
            )
        }),
{
    let from = lemma_trim_start(text);
    let rest = trim_start(text);
    lemma_trim_end(rest);
    let whole = trimmed(text);
    let to = from + whole.len();
    assert(text.subrange(from, to) =~= rest.take(whole.len() as int));
    assert forall|i: int| to <= i < text.len() implies white_space(#[trigger] text[i]) by {
        assert(rest[i - from] == text[i]);
    }
    if whole.len() > 0 {
        assert(whole[0] == rest[0]);
    }
    from
}

proof fn lemma_trim_start(text: Seq<char>) -> (from: int)
    ensures
        0 <= from <= text.len(),
        trim_start(text) == text.skip(from),
        forall|i: int| 0 <= i < from ==> white_space(#[trigger] text[i]),
        from < text.len() ==> !white_space(text[from]),
    decreases text.len(),
{
    if text.len() > 0 && white_space(text[0]) {
        let rest = text.drop_first();
        let from = lemma_trim_start(rest);
        assert(rest.skip(from) =~= text.skip(from + 1));
        assert forall|i: int| 0 <= i < from + 1 implies white_space(#[trigger] text[i]) by {
            if i > 0 {
                assert(rest[i - 1] == text[i]);
            }
        }
        from + 1
    } else {
        assert(text.skip(0) =~= text);
        0
    }
}

proof fn lemma_trim_end(text: Seq<char>)
    ensures
        ({
            let to = trim_end(text).len();
            &&& to <= text.len()
            &&& trim_end(text) == text.take(to as int)
            &&& forall|i: int| to <= i < text.len() ==> white_space(#[trigger] text[i])
            &&& to > 0 ==> !white_space(trim_end(text).last())
        }),
    decreases text.len(),
{
    if text.len() > 0 && white_space(text.last()) {
        let rest = text.drop_last();
        lemma_trim_end(rest);
        let to = trim_end(rest).len() as int;
        assert(rest.take(to) =~= text.take(to));
        assert forall|i: int| to <= i < text.len() implies white_space(#[trigger] text[i]) by {
            if i < rest.len() {
                assert(rest[i] == text[i]);
            }
        }
    } else {
        assert(text.take(text.len() as int) =~= text);
    }
}

/// White space by code point: the controls from the tab to the carriage return, the
/// space and the next line, and the spaces and separators beyond ASCII.
pub proof fn white_space_by_code_point(c: char)
    ensures
        white_space(c) <==> {
            ||| 9 <= c as int <= 13
            ||| c as int == 32
            ||| c as int == 133
            ||| c as int == 160
            ||| c as int == 5760
            ||| 8192 <= c as int <= 8202
            ||| c as int == 8232
            ||| c as int == 8233
            ||| c as int == 8239
            ||| c as int == 8287
            ||| c as int == 12288
        },
{
}

/// The digits of a number stand for that number: they are decimal digits, without
/// a zero in front of others, and reading them gives the number back.
pub proof fn digits_read_back(n: nat)
    ensures
        digits_value(decimal_text(n)) == n,
        decimal_text(n).len() > 0,
        forall|i: int|
            0 <= i < decimal_text(n).len() ==> '0' <= #[trigger] decimal_text(n)[i] <= '9',
        decimal_text(n)[0] == '0' ==> n == 0,
    decreases n,
{
    let text = decimal_text(n);
    if n >= 10 {
        digits_read_back(n / 10);
        let tens = decimal_text(n / 10);
        assert(text.drop_last() =~= tens);
        assert(text.last() as int == '0' as int + n % 10);
        assert forall|i: int| 0 <= i < text.len() implies '0' <= #[trigger] text[i] <= '9' by {
            if i < tens.len() {
                assert(text[i] == tens[i]);
            }
        }
        assert(text[0] == tens[0]);
    } else {
        assert(text.drop_last() =~= Seq::empty());
        assert(digits_value(text.drop_last()) == 0);
        assert(text.last() as int == '0' as int + n);
    }
}

/// Reading a number of 64 bits undoes writing it, with or without a plus sign.
pub proof fn numbers_read_back(n: u64)
    ensures
        number_of(decimal_text(n as nat)) == Some(n),
        number_of(seq!['+'] + decimal_text(n as nat)) == Some(n),
{
    let text = decimal_text(n as nat);
    digits_read_back(n as nat);
    assert(without_plus(text) == text);
    assert((seq!['+'] + text).drop_first() =~= text);
}

/// A text is a number exactly if it is a row of decimal digits, at least one, which
/// may have a plus sign in front, and the value fits 64 bits.  One more digit makes
/// the number ten times as large, plus that digit.
pub proof fn numbers_are_rows_of_digits(text: Seq<char>, digit: char)
    requires
        number_of(text) is Some,
        '0' <= digit <= '9',
    ensures
        ({
            let value = number_of(text)->0 * 10 + (digit as int - '0' as int);
            &&& value <= u64::MAX ==> (number_of(text.push(digit)) matches Some(more) && more
                == value)
            &&& value > u64::MAX ==> number_of(text.push(digit)) is None
        }),
        forall|i: int|
            0 <= i < text.len() ==> '0' <= #[trigger] text[i] <= '9' || (i == 0 && text[i] == '+'),
        text.len() > 0,
        number_of(Seq::empty()) is None,
        number_of(seq!['+']) is None,
        number_of(seq![digit]) is Some,
{
    let digits = without_plus(text);
    let more = without_plus(text.push(digit));
    assert(more =~= digits.push(digit));
    assert(more.drop_last() =~= digits);
    assert(seq!['+'].drop_first().len() == 0);
    assert forall|i: int| 0 <= i < more.len() implies is_digit(#[trigger] more[i]) by {
        if i < digits.len() {
            assert(is_digit(digits[i]));
        }
    }
    assert forall|i: int| 0 <= i < text.len() implies '0' <= #[trigger] text[i] <= '9' || (i == 0
        && text[i] == '+') by {
        if text[0] == '+' {
            if i > 0 {
                assert(is_digit(digits[i - 1]));
            }
        } else {
            assert(is_digit(digits[i]));
        }
    }
    let one = seq![digit];
    assert(without_plus(one) == one);
    assert(one.drop_last() =~= Seq::empty());
    assert(digits_value(one.drop_last()) == 0);
    assert(is_digit(one[0]));
}

/// A text with a character in it that is neither a digit nor a plus sign in front
/// is no number.
pub proof fn other_characters_make_no_number(text: Seq<char>, i: int)
    requires
        0 <= i < text.len(),
        !('0' <= text[i] <= '9'),
        i > 0 || text[i] != '+',
    ensures
        number_of(text) is None,
{
    let digits = without_plus(text);
    if text[0] == '+' {
        assert(!is_digit(digits[i - 1]));
    } else {
        assert(!is_digit(digits[i]));
    }
}

/// A negative number is written as its size behind a minus sign, and any other
/// number as its digits.
pub proof fn negative_numbers_have_a_sign(n: int)
    ensures
        n < 0 ==> signed_text(n) == seq!['-'] + signed_text(-n),
        n >= 0 ==> signed_text(n) == decimal_text(n as nat),
        signed_text(n)[0] == '-' <==> n < 0,
{
    if n >= 0 {
        digits_read_back(n as nat);
    }
}

/// A prefix is taken off exactly where the text begins with it.
pub proof fn prefixes_are_taken_off(prefix: Seq<char>, text: Seq<char>)
    ensures
        without_prefix(prefix + text, prefix) == Some(text),
        without_prefix(text, prefix) matches Some(rest) ==> text == prefix + rest,
{
    assert(prefix =~= (prefix + text).subrange(0, prefix.len() as int));
    assert((prefix + text).skip(prefix.len() as int) =~= text);
    if prefix.is_prefix_of(text) {
        assert(text =~= prefix + text.skip(prefix.len() as int));
    }
}

} // verus!
