//! Dice notation: `<count>d<faces>` with an optional comparison against a
//! target, such as `2d6 >= 7`.

use vstd::prelude::*;
use vstd::string::*;
use vstd::std_specs::convert::FromSpecImpl;
use crate::text::{
    chars_of, digits_end, number_u128, number_u32, number_u64, parse_number, tail,
};

verus! {

/// A comparison between the total of a roll and a target.
#[derive(Clone, Copy, Debug, PartialEq, Eq, Structural)]
pub enum CmpOperator {
    Equal,
    GreaterEqual,
    GreaterThan,
    LessEqual,
    LessThan,
    NotEqual,
}

/// A roll that was asked for: `num` dice of `dice` faces each, and the
/// comparison to make with their total.
#[derive(Clone, Copy, Debug, PartialEq, Eq)]
pub struct Dice {
    pub num: u32,
    pub dice: u64,
    pub cmp: Option<(CmpOperator, u128)>,
}

/// Why a text is no dice notation.
#[derive(Clone, Copy, Debug, PartialEq, Eq, Structural)]
pub enum DiceError {
    /// A number was expected and no digit stands there.
    NoDigits,
    /// The `d` between the two numbers is missing.
    NoSeparator,
    /// The count or the number of faces is too large for its type.
    OutOfRange,
}

/// What `operator` says of `left` and `right`, over the integers.
pub open spec fn operator_holds(operator: CmpOperator, left: int, right: int) -> bool {
    match operator {
        CmpOperator::Equal => left == right,
        CmpOperator::GreaterEqual => left >= right,
        CmpOperator::GreaterThan => left > right,
        CmpOperator::LessEqual => left <= right,
        CmpOperator::LessThan => left < right,
        CmpOperator::NotEqual => left != right,
    }
}

/// Decides whether `left operator right` holds.
pub fn cmp_with_operator(operator: &CmpOperator, left: u128, right: u128) -> (holds: bool)
    ensures
        holds == operator_holds(*operator, left + 0, right + 0),
{
    match *operator {
        CmpOperator::Equal => left == right,
        CmpOperator::GreaterEqual => left >= right,
        CmpOperator::GreaterThan => left > right,
        CmpOperator::LessEqual => left <= right,
        CmpOperator::LessThan => left < right,
        CmpOperator::NotEqual => left != right,
    }
}

/// The text of an operator.
pub open spec fn operator_text(operator: CmpOperator) -> Seq<char> {
    match operator {
        CmpOperator::Equal => "=="@,
        CmpOperator::GreaterEqual => ">="@,
        CmpOperator::GreaterThan => ">"@,
        CmpOperator::LessEqual => "<="@,
        CmpOperator::LessThan => "<"@,
        CmpOperator::NotEqual => "!="@,
    }
}

/// The operator that a text names; `Equal` for a text that names none.
pub open spec fn operator_named(text: Seq<char>) -> CmpOperator {
    if text == ">"@ {
        CmpOperator::GreaterThan
    } else if text == ">="@ {
        CmpOperator::GreaterEqual
    } else if text == "<"@ {
        CmpOperator::LessThan
    } else if text == "<="@ {
        CmpOperator::LessEqual
    } else if text == "!="@ || text == "!=="@ {
        CmpOperator::NotEqual
    } else {
        CmpOperator::Equal
    }
}

impl CmpOperator {
    /// The operator that `text` names: `>`, `>=`, `<`, `<=`, `=`, `==`,
    /// `===`, `!=` or `!==`; `Equal` for any other text.
    pub fn from_text(text: &str) -> (operator: Self)
        ensures
            operator == operator_named(text@),
    {
        let text = text.to_owned();
        if text == ">".to_owned() {
            CmpOperator::GreaterThan
        } else if text == ">=".to_owned() {
            CmpOperator::GreaterEqual
        } else if text == "<".to_owned() {
            CmpOperator::LessThan
        } else if text == "<=".to_owned() {
            CmpOperator::LessEqual
        } else if text == "!=".to_owned() || text == "!==".to_owned() {
            CmpOperator::NotEqual
        } else {
            CmpOperator::Equal
        }
    }

    /// The text of the operator: `==`, `>=`, `>`, `<=`, `<` or `!=`.
    pub fn to_text(&self) -> (text: String)
        ensures
            text@ == operator_text(*self),
    {
        match self {
            CmpOperator::Equal => "==".to_owned(),
            CmpOperator::GreaterEqual => ">=".to_owned(),
            CmpOperator::GreaterThan => ">".to_owned(),
            CmpOperator::LessEqual => "<=".to_owned(),
            CmpOperator::LessThan => "<".to_owned(),
            CmpOperator::NotEqual => "!=".to_owned(),
        }
    }
}

impl<'a> From<&'a str> for CmpOperator {
    fn from(text: &'a str) -> (operator: Self) {
        CmpOperator::from_text(text)
    }
}

impl<'a> FromSpecImpl<&'a str> for CmpOperator {
    open spec fn obeys_from_spec() -> bool {
        true
    }

    open spec fn from_spec(text: &'a str) -> Self {
        operator_named(text@)
    }
}

/// `c` is a space or a tab.
pub open spec fn is_blank(c: char) -> bool {
    c == ' ' || c == '\t'
}

/// The index of the first character from `from` on that is no blank.
pub open spec fn blanks_end(text: Seq<char>, from: int) -> int
    decreases text.len() - from,
{
    if 0 <= from < text.len() && is_blank(text[from]) {
        blanks_end(text, from + 1)
    } else {
        from
    }
}

/// The character `c` stands at `at`.
pub open spec fn has_char(text: Seq<char>, at: int, c: char) -> bool {
    0 <= at < text.len() && text[at] == c
}

/// The operator that stands at `at` and the index after it. Of two that
/// fit the longer one is read.
pub open spec fn operator_at(text: Seq<char>, at: int) -> Option<(CmpOperator, int)> {
    if has_char(text, at, '=') {
        if has_char(text, at + 1, '=') {
            Some((CmpOperator::Equal, at + 2))
        } else {
            Some((CmpOperator::Equal, at + 1))
        }
    } else if has_char(text, at, '>') {
        if has_char(text, at + 1, '=') {
            Some((CmpOperator::GreaterEqual, at + 2))
        } else {
            Some((CmpOperator::GreaterThan, at + 1))
        }
    } else if has_char(text, at, '<') {
        if has_char(text, at + 1, '=') {
            Some((CmpOperator::LessEqual, at + 2))
        } else {
            Some((CmpOperator::LessThan, at + 1))
        }
    } else if has_char(text, at, '!') && has_char(text, at + 1, '=') {
        Some((CmpOperator::NotEqual, at + 2))
    } else {
        None
    }
}

/// The comparison that begins at `at`: blanks, an operator, blanks, and a
/// target of at most 128 bits; with it the index after the target.
pub open spec fn comparison_at(text: Seq<char>, at: int) -> Option<((CmpOperator, u128), int)> {
    match operator_at(text, blanks_end(text, at)) {
        Some((operator, after)) => {
            let from = blanks_end(text, after);
            let to = digits_end(text, from);
            if to == from {
                None
            } else {
                match number_u128(text, from, to) {
                    Some(target) => Some(((operator, target), to)),
                    None => None,
                }
            }
        },
        None => None,
    }
}

/// The count and the faces at the head of a text: digits, `d` or `D`,
/// digits; with them the index after the faces.
pub open spec fn roll_at_head(text: Seq<char>) -> Result<(u32, u64, int), DiceError> {
    let count_end = digits_end(text, 0);
    let faces_end = digits_end(text, count_end + 1);
    if count_end == 0 {
        Err(DiceError::NoDigits)
    } else if number_u32(text, 0, count_end) is None {
        Err(DiceError::OutOfRange)
    } else if !has_char(text, count_end, 'd') && !has_char(text, count_end, 'D') {
        Err(DiceError::NoSeparator)
    } else if faces_end == count_end + 1 {
        Err(DiceError::NoDigits)
    } else if number_u64(text, count_end + 1, faces_end) is None {
        Err(DiceError::OutOfRange)
    } else {
        Ok((number_u32(text, 0, count_end)->0, number_u64(text, count_end + 1, faces_end)->0, faces_end))
    }
}

/// The dice notation at the head of a text and the index after it. A
/// comparison that cannot be read is no part of the notation.
pub open spec fn dice_notation(text: Seq<char>) -> Result<(Dice, int), DiceError> {
    match roll_at_head(text) {
        Ok((num, dice, end)) => match comparison_at(text, end) {
            Some((comparison, after)) => Ok((Dice { num, dice, cmp: Some(comparison) }, after)),
            None => Ok((Dice { num, dice, cmp: None }, end)),
        },
        Err(error) => Err(error),
    }
}

/// The index of the first character from `from` on that is no blank.
fn skip_blanks(text: &Vec<char>, from: usize) -> (end: usize)
    requires
        from <= text.len(),
    ensures
        end == blanks_end(text@, from as int),
        from <= end <= text.len(),
{
    let mut end: usize = from;
    while end < text.len() && (text[end] == ' ' || text[end] == '\t')
        invariant
            from <= end <= text.len(),
            blanks_end(text@, end as int) == blanks_end(text@, from as int),
        decreases text.len() - end,
    {
        end = end + 1;
    }
    end
}

/// Whether `c` stands at `at`.
fn char_at(text: &Vec<char>, at: usize, c: char) -> (found: bool)
    ensures
        found == has_char(text@, at as int, c),
{
    at < text.len() && text[at] == c
}

/// The operator at `at` and the index after it.
fn parse_operator(text: &Vec<char>, at: usize) -> (found: Option<(CmpOperator, usize)>)
    requires
        at <= text.len(),
    ensures
        found == match operator_at(text@, at as int) {
            Some((operator, after)) => Some((operator, after as usize)),
            None => None,
        },
        operator_at(text@, at as int) matches Some((_, after)) ==> at < after <= text.len(),
{
    if at >= text.len() {
        return None;
    }
    let longer = char_at(text, at + 1, '=');
    if char_at(text, at, '=') {
        if longer {
            Some((CmpOperator::Equal, at + 2))
        } else {
            Some((CmpOperator::Equal, at + 1))
        }
    } else if char_at(text, at, '>') {
        if longer {
            Some((CmpOperator::GreaterEqual, at + 2))
        } else {
            Some((CmpOperator::GreaterThan, at + 1))
        }
    } else if char_at(text, at, '<') {
        if longer {
            Some((CmpOperator::LessEqual, at + 2))
        } else {
            Some((CmpOperator::LessThan, at + 1))
        }
    } else if char_at(text, at, '!') && longer {
        Some((CmpOperator::NotEqual, at + 2))
    } else {
        None
    }
}

/// The comparison that begins at `at` and the index after it.
fn parse_comparison(text: &Vec<char>, at: usize) -> (found: Option<((CmpOperator, u128), usize)>)
    requires
        at <= text.len(),
    ensures
        found == match comparison_at(text@, at as int) {
            Some((comparison, after)) => Some((comparison, after as usize)),
            None => None,
        },
        comparison_at(text@, at as int) matches Some((_, after)) ==> at < after <= text.len(),
{
    let start = skip_blanks(text, at);
    match parse_operator(text, start) {
        Some((operator, after)) => {
            let from = skip_blanks(text, after);
            match parse_number(text, from, u128::MAX) {
                (Some(target), to) => Some(((operator, target), to)),
                (None, _) => None,
            }
        },
        None => None,
    }
}

/// The count and the faces at the head of the text.
fn parse_roll(text: &Vec<char>) -> (found: Result<(u32, u64, usize), DiceError>)
    ensures
        found == match roll_at_head(text@) {
            Ok((num, dice, end)) => Ok::<(u32, u64, usize), DiceError>((num, dice, end as usize)),
            Err(error) => Err(error),
        },
        roll_at_head(text@) matches Ok((_, _, end)) ==> 0 <= end <= text.len(),
{
    let (count, count_end) = parse_number(text, 0, 0xffff_ffff);
    if count_end == 0 {
        return Err(DiceError::NoDigits);
    }
    let num: u32 = match count {
        Some(count) => count as u32,
        None => {
            return Err(DiceError::OutOfRange);
        },
    };
    if !char_at(text, count_end, 'd') && !char_at(text, count_end, 'D') {
        return Err(DiceError::NoSeparator);
    }
    let (faces, faces_end) = parse_number(text, count_end + 1, 0xffff_ffff_ffff_ffff);
    if faces_end == count_end + 1 {
        return Err(DiceError::NoDigits);
    }
    match faces {
        Some(faces) => Ok((num, faces as u64, faces_end)),
        None => Err(DiceError::OutOfRange),
    }
}

/// Reads the dice notation at the head of `input` and returns it with the
/// rest of the input. The notation is a count of dice, `d` or `D`, and a
/// number of faces, and may go on with a comparison: blanks, one of `==`,
/// `=`, `>=`, `>`, `<=`, `<`, `!=`, blanks, and a target. A comparison
/// that cannot be read is left in the rest.
pub fn parse_dice(input: &str) -> (parsed: Result<(&str, Dice), DiceError>)
    ensures
        match dice_notation(input@) {
            Ok((dice, end)) => parsed matches Ok((rest, found)) && found == dice && 0 <= end
                <= input@.len() && rest@ == tail(input@, end),
            Err(error) => parsed == Err::<(&str, Dice), DiceError>(error),
        },
{
    let text = chars_of(input);
    match parse_roll(&text) {
        Ok((num, dice, end)) => match parse_comparison(&text, end) {
            Some((comparison, after)) => Ok(
                (input.substring_char(after, text.len()), Dice { num, dice, cmp: Some(comparison) }),
            ),
            None => Ok((input.substring_char(end, text.len()), Dice { num, dice, cmp: None })),
        },
        Err(error) => Err(error),
    }
}

} // verus!
