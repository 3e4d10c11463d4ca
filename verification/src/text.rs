//! Text helpers: characters of a string, decimal numerals, joining.

use vstd::prelude::*;
use vstd::string::*;

verus! {

/// `String::push`: the string afterwards is the string before with `c`
/// appended.
#[verifier::external_body]
pub(crate) fn push_char(text: &mut String, c: char)
    ensures
        final(text)@ == old(text)@.push(c),
{
    text.push(c)
}

/// The characters of `text`, in order.
pub fn chars_of(text: &str) -> (chars: Vec<char>)
    ensures
        chars@ == text@,
{
    let mut chars: Vec<char> = Vec::new();
    for c in it: text.chars()
        invariant
            it.seq() == text@,
            chars@ == text@.take(it.index() as int),
    {
        chars.push(c);
    }
    chars
}

/// The string whose characters are `chars`.
pub fn string_of(chars: &Vec<char>) -> (text: String)
    ensures
        text@ == chars@,
{
    let mut text = String::new();
    let mut i: usize = 0;
    while i < chars.len()
        invariant
            i <= chars.len(),
            text@ == chars@.take(i as int),
        decreases chars.len() - i,
    {
        push_char(&mut text, chars[i]);
        i = i + 1;
    }
    text
}

/// Whether two strings hold the same characters.
pub fn same_text(a: &str, b: &str) -> (same: bool)
    ensures
        same == (a@ == b@),
{
    a.to_owned() == b.to_owned()
}

/// The character of a decimal digit.
pub open spec fn digit_char(digit: nat) -> char {
    (48 + digit) as char
}

/// The decimal numeral of `n`, without leading zeros.
pub open spec fn decimal(n: nat) -> Seq<char>
    decreases n,
{
    if n < 10 {
        seq![digit_char(n)]
    } else {
        decimal(n / 10).push(digit_char(n % 10))
    }
}

/// Appends the decimal numeral of `n` to `text`.
pub fn push_decimal(text: &mut String, n: u128)
    ensures
        final(text)@ == old(text)@ + decimal(n as nat),
    decreases n,
{
    if n >= 10 {
        push_decimal(text, n / 10);
    }
    let digit: u8 = (n % 10) as u8;
    let c: char = (48u8 + digit) as char;
    assert(c == digit_char((n % 10) as nat));
    push_char(text, c);
    assert(text@ =~= old(text)@ + decimal(n as nat));
}

/// `c` is one of the ten decimal digits.
pub open spec fn is_digit(c: char) -> bool {
    '0' <= c <= '9'
}

/// The value of a digit; 0 for any other character.
pub open spec fn digit_value(c: char) -> nat {
    if is_digit(c) {
        (c as nat - 48) as nat
    } else {
        0
    }
}

/// Every character of the sequence is a digit.
pub open spec fn all_digits(digits: Seq<char>) -> bool {
    forall|i: int| 0 <= i < digits.len() ==> is_digit(#[trigger] digits[i])
}

/// The number that a sequence of digits denotes; 0 for the empty one.
pub open spec fn digits_value(digits: Seq<char>) -> nat
    decreases digits.len(),
{
    if digits.len() == 0 {
        0
    } else {
        digits_value(digits.drop_last()) * 10 + digit_value(digits.last())
    }
}

/// Where the digits that begin at `from` end: the index of the first
/// character from there on that is no digit, or the length.
pub open spec fn digits_end(text: Seq<char>, from: int) -> int
    decreases text.len() - from,
{
    if 0 <= from < text.len() && is_digit(text[from]) {
        digits_end(text, from + 1)
    } else {
        from
    }
}

/// The number denoted by the digits of `text` between `from` and `to`, if
/// it is at most `max`.
pub open spec fn number_between(text: Seq<char>, from: int, to: int, max: nat) -> Option<nat> {
    if digits_value(text.subrange(from, to)) <= max {
        Some(digits_value(text.subrange(from, to)))
    } else {
        None
    }
}

/// The number that a text denotes as an unsigned decimal numeral: digits,
/// at least one, after an optional `+`, and a value of at most `max`.
pub open spec fn unsigned_value(text: Seq<char>, max: nat) -> Option<nat> {
    let from: int = if text.len() > 0 && text[0] == '+' {
        1
    } else {
        0
    };
    if from < text.len() && digits_end(text, from) == text.len() {
        number_between(text, from, text.len() as int, max)
    } else {
        None
    }
}

/// The digits between `from` and the end that `digits_end` finds are
/// digits, and the end lies within the text.
pub proof fn lemma_digits_end(text: Seq<char>, from: int)
    requires
        0 <= from <= text.len(),
    ensures
        from <= digits_end(text, from) <= text.len(),
        all_digits(text.subrange(from, digits_end(text, from))),
        digits_end(text, from) < text.len() ==> !is_digit(text[digits_end(text, from)]),
    decreases text.len() - from,
{
    if from < text.len() && is_digit(text[from]) {
        lemma_digits_end(text, from + 1);
        let end = digits_end(text, from);
        assert forall|i: int| 0 <= i < end - from implies is_digit(
            #[trigger] text.subrange(from, end)[i],
        ) by {
            if i > 0 {
                assert(text.subrange(from + 1, end)[i - 1] == text[from + i]);
            }
        }
    }
}

/// A numeral denotes at least what any of its beginnings denotes.
pub proof fn lemma_digits_value_grows(digits: Seq<char>, i: int)
    requires
        0 <= i <= digits.len(),
    ensures
        digits_value(digits.take(i)) <= digits_value(digits),
    decreases digits.len(),
{
    if i < digits.len() {
        lemma_digits_value_grows(digits.drop_last(), i);
        assert(digits.drop_last().take(i) =~= digits.take(i));
    } else {
        assert(digits.take(i) =~= digits);
    }
}

/// The index of the first character from `from` on that is no digit.
pub fn scan_digits(text: &Vec<char>, from: usize) -> (end: usize)
    requires
        from <= text.len(),
    ensures
        end == digits_end(text@, from as int),
        from <= end <= text.len(),
{
    let mut end: usize = from;
    while end < text.len() && text[end] >= '0' && text[end] <= '9'
        invariant
            from <= end <= text.len(),
            digits_end(text@, end as int) == digits_end(text@, from as int),
        decreases text.len() - end,
    {
        end = end + 1;
    }
    end
}

/// The number denoted by the digits between `from` and `to`, or `None`
/// where it is more than `max`.
pub fn parse_digits(text: &Vec<char>, from: usize, to: usize, max: u128) -> (number: Option<u128>)
    requires
        from <= to <= text.len(),
        all_digits(text@.subrange(from as int, to as int)),
    ensures
        number == match number_between(text@, from as int, to as int, max as nat) {
            Some(value) => Some(value as u128),
            None => None,
        },
{
    let ghost digits = text@.subrange(from as int, to as int);
    let mut value: u128 = 0;
    let mut i: usize = from;
    assert(digits.take(0) =~= Seq::<char>::empty());
    while i < to
        invariant
            from <= i <= to <= text.len(),
            digits == text@.subrange(from as int, to as int),
            all_digits(digits),
            value == digits_value(digits.take(i - from)),
            value <= max,
        decreases to - i,
    {
        let c = text[i];
        assert(c == digits[i - from] && is_digit(c));
        let digit: u128 = (c as u32 - 48) as u128;
        proof {
            assert(digits.take(i - from + 1).drop_last() =~= digits.take(i - from));
            assert(digits_value(digits.take(i - from + 1)) == value * 10 + digit);
            lemma_digits_value_grows(digits, i - from + 1);
        }
        let next = match value.checked_mul(10) {
            Some(tens) => tens.checked_add(digit),
            None => None,
        };
        match next {
            Some(next) => {
                if next > max {
                    return None;
                }
                value = next;
            },
            None => {
                return None;
            },
        }
        i = i + 1;
    }
    assert(digits.take(to - from) =~= digits);
    Some(value)
}

/// Reads an unsigned decimal numeral of at most `max`: digits, at least
/// one, after an optional `+`.
pub fn parse_unsigned(text: &str, max: u128) -> (number: Option<u128>)
    ensures
        number == match unsigned_value(text@, max as nat) {
            Some(value) => Some(value as u128),
            None => None,
        },
{
    let chars = chars_of(text);
    let from: usize = if chars.len() > 0 && chars[0] == '+' {
        1
    } else {
        0
    };
    if from >= chars.len() {
        return None;
    }
    let end = scan_digits(&chars, from);
    if end != chars.len() {
        return None;
    }
    proof {
        lemma_digits_end(chars@, from as int);
    }
    parse_digits(&chars, from, end, max)
}

/// The number denoted by the digits between `from` and `to`, if it fits
/// in 32 bits.
pub open spec fn number_u32(text: Seq<char>, from: int, to: int) -> Option<u32> {
    match number_between(text, from, to, u32::MAX as nat) {
        Some(value) => Some(value as u32),
        None => None,
    }
}

/// The number denoted by the digits between `from` and `to`, if it fits
/// in 64 bits.
pub open spec fn number_u64(text: Seq<char>, from: int, to: int) -> Option<u64> {
    match number_between(text, from, to, u64::MAX as nat) {
        Some(value) => Some(value as u64),
        None => None,
    }
}

/// The number denoted by the digits between `from` and `to`, if it fits
/// in 128 bits.
pub open spec fn number_u128(text: Seq<char>, from: int, to: int) -> Option<u128> {
    match number_between(text, from, to, u128::MAX as nat) {
        Some(value) => Some(value as u128),
        None => None,
    }
}

/// The digits from `from` on and the number they denote, if there is a
/// digit and the number is at most `max`; with it the index after them.
pub fn parse_number(text: &Vec<char>, from: usize, max: u128) -> (number: (Option<u128>, usize))
    requires
        from <= text.len(),
    ensures
        number.1 == digits_end(text@, from as int),
        from <= number.1 <= text.len(),
        number.0 == if number.1 == from {
            None
        } else {
            match number_between(text@, from as int, number.1 as int, max as nat) {
                Some(value) => Some(value as u128),
                None => None,
            }
        },
{
    let end = scan_digits(text, from);
    if end == from {
        return (None, end);
    }
    proof {
        lemma_digits_end(text@, from as int);
    }
    (parse_digits(text, from, end, max), end)
}

/// The text from `from` on.
pub open spec fn tail(text: Seq<char>, from: int) -> Seq<char> {
    text.subrange(from, text.len() as int)
}

/// The values as decimal numerals with `, ` between them.
pub open spec fn joined(values: Seq<u64>) -> Seq<char>
    decreases values.len(),
{
    if values.len() == 0 {
        Seq::empty()
    } else if values.len() == 1 {
        decimal(values[0] as nat)
    } else {
        joined(values.drop_last()) + ", "@ + decimal(values.last() as nat)
    }
}

/// Appends the values as decimal numerals with `, ` between them.
pub fn push_joined(text: &mut String, values: &Vec<u64>)
    ensures
        final(text)@ == old(text)@ + joined(values@),
{
    let ghost head = text@;
    let mut i: usize = 0;
    assert(values@.take(0) =~= Seq::<u64>::empty());
    assert(text@ =~= head + joined(values@.take(0)));
    while i < values.len()
        invariant
            i <= values.len(),
            text@ == head + joined(values@.take(i as int)),
        decreases values.len() - i,
    {
        assert(values@.take(i + 1).drop_last() =~= values@.take(i as int));
        if i > 0 {
            text.append(", ");
        }
        push_decimal(text, values[i] as u128);
        assert(text@ =~= head + joined(values@.take(i + 1)));
        i = i + 1;
    }
    assert(values@.take(i as int) =~= values@);
}

/// The numeral of a number is made of digits, at least one, and denotes
/// the number.
pub proof fn lemma_decimal_denotes(n: nat)
    ensures
        decimal(n).len() > 0,
        all_digits(decimal(n)),
        digits_value(decimal(n)) == n,
    decreases n,
{
    if n < 10 {
        assert(decimal(n).drop_last() =~= Seq::<char>::empty());
        assert(digits_value(decimal(n).drop_last()) == 0);
        assert(digit_value(digit_char(n)) == n);
    } else {
        lemma_decimal_denotes(n / 10);
        assert(decimal(n).drop_last() =~= decimal(n / 10));
        assert(digit_value(digit_char(n % 10)) == n % 10);
        assert forall|i: int| 0 <= i < decimal(n).len() implies is_digit(
            #[trigger] decimal(n)[i],
        ) by {
            if i < decimal(n / 10).len() {
                assert(decimal(n)[i] == decimal(n / 10)[i]);
            }
        }
    }
}

/// Digits up to the end of a text are where its digits end.
pub proof fn lemma_digits_to_the_end(text: Seq<char>, from: int)
    requires
        0 <= from <= text.len(),
        forall|i: int| from <= i < text.len() ==> is_digit(#[trigger] text[i]),
    ensures
        digits_end(text, from) == text.len(),
    decreases text.len() - from,
{
    if from < text.len() {
        lemma_digits_to_the_end(text, from + 1);
    }
}

/// Reading the numeral of a number gives the number back, where it is
/// within the bound.
pub proof fn lemma_numeral_is_read_back(n: nat, max: nat)
    requires
        n <= max,
    ensures
        unsigned_value(decimal(n), max) == Some(n),
{
    lemma_decimal_denotes(n);
    lemma_digits_to_the_end(decimal(n), 0);
    assert(is_digit(decimal(n)[0]));
    assert(decimal(n).subrange(0, decimal(n).len() as int) =~= decimal(n));
}

/// The number that a text denotes as a signed decimal numeral of 64 bits:
/// digits, at least one, after an optional `+` or `-`.
pub open spec fn signed_value(text: Seq<char>) -> Option<int> {
    if text.len() > 0 && text[0] == '-' {
        if 1 < text.len() && digits_end(text, 1) == text.len() {
            match number_between(text, 1, text.len() as int, 0x8000_0000_0000_0000) {
                Some(value) => Some(-value),
                None => None,
            }
        } else {
            None
        }
    } else {
        match unsigned_value(text, i64::MAX as nat) {
            Some(value) => Some(value as int),
            None => None,
        }
    }
}

/// Reads a signed decimal numeral of 64 bits.
pub fn parse_signed(text: &str) -> (number: Option<i64>)
    ensures
        number == match signed_value(text@) {
            Some(value) => Some(value as i64),
            None => None,
        },
{
    let chars = chars_of(text);
    if chars.len() > 0 && chars[0] == '-' {
        if chars.len() < 2 {
            return None;
        }
        let end = scan_digits(&chars, 1);
        if end != chars.len() {
            return None;
        }
        proof {
            lemma_digits_end(chars@, 1);
        }
        match parse_digits(&chars, 1, end, 0x8000_0000_0000_0000) {
            Some(value) => {
                if value == 0x8000_0000_0000_0000 {
                    Some(i64::MIN)
                } else {
                    Some(-(value as i64))
                }
            },
            None => None,
        }
    } else {
        match parse_unsigned(text, 0x7fff_ffff_ffff_ffff) {
            Some(value) => Some(value as i64),
            None => None,
        }
    }
}

} // verus!
