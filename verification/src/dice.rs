//! Rolling dice and reporting the roll.

use vstd::prelude::*;
use vstd::string::*;
use crate::parser::{cmp_with_operator, operator_holds, operator_text, CmpOperator, Dice};
use crate::text::{decimal, joined, push_decimal, push_joined};

verus! {

/// The largest number of dice that is rolled at once.
pub const MAX_DICE: u32 = 1000000;

/// `rand::random::<u64>`: a number that the thread's generator draws.
/// Nothing is known of it but its type.
#[verifier::external_body]
fn random_u64() -> u64 {
    rand::random::<u64>()
}

/// The face that a die of `faces` faces shows for the number drawn.
pub open spec fn face_shown(raw: u64, faces: u64) -> u64 {
    (raw % faces + 1) as u64
}

/// The faces shown for a sequence of numbers drawn.
pub open spec fn faces_shown(raws: Seq<u64>, faces: u64) -> Seq<u64> {
    raws.map_values(|raw: u64| face_shown(raw, faces))
}

/// The sum of the values.
pub open spec fn total(values: Seq<u64>) -> nat
    decreases values.len(),
{
    if values.len() == 0 {
        0
    } else {
        total(values.drop_last()) + values.last() as nat
    }
}

/// The values in parentheses, after a space.
pub open spec fn items_text(values: Seq<u64>) -> Seq<char> {
    " ("@ + joined(values) + ")"@
}

/// The report of a comparison of the total with a target.
pub open spec fn verdict_text(sum: nat, operator: CmpOperator, target: u128) -> Seq<char> {
    " "@ + operator_text(operator) + " "@ + decimal(target as nat) + " -> "@ + if operator_holds(
        operator,
        sum as int,
        target as int,
    ) {
        "OK"@
    } else {
        "NG"@
    }
}

/// The report of a roll: count, faces and total; the values, where a die
/// has more than one face and they take at most 100 characters; and the
/// comparison, where one was asked for.
pub open spec fn roll_text(
    faces: u64,
    values: Seq<u64>,
    comparison: Option<(CmpOperator, u128)>,
) -> Seq<char> {
    decimal(values.len()) + "D"@ + decimal(faces as nat) + " -> "@ + decimal(total(values)) + (if 1
        < faces && items_text(values).len() <= 100 {
        items_text(values)
    } else {
        Seq::empty()
    }) + (match comparison {
        Some((operator, target)) => verdict_text(total(values), operator, target),
        None => Seq::empty(),
    })
}

/// The sum of the values is at most their number times the largest value.
proof fn lemma_total_bound(values: Seq<u64>)
    ensures
        total(values) <= values.len() * u64::MAX,
    decreases values.len(),
{
    if values.len() > 0 {
        lemma_total_bound(values.drop_last());
        assert(total(values) <= values.len() * u64::MAX) by (nonlinear_arith)
            requires
                total(values) <= total(values.drop_last()) + u64::MAX,
                total(values.drop_last()) <= (values.len() - 1) * u64::MAX,
        ;
    }
}

/// The sum of the values.
fn sum_of(values: &Vec<u64>) -> (sum: u128)
    ensures
        sum == total(values@),
{
    let mut sum: u128 = 0;
    let mut i: usize = 0;
    assert(values@.take(0) =~= Seq::<u64>::empty());
    while i < values.len()
        invariant
            i <= values.len(),
            sum == total(values@.take(i as int)),
        decreases values.len() - i,
    {
        proof {
            assert(values@.take(i + 1).drop_last() =~= values@.take(i as int));
            lemma_total_bound(values@.take(i + 1));
            assert((i + 1) * u64::MAX <= usize::MAX * u64::MAX) by (nonlinear_arith)
                requires
                    i + 1 <= usize::MAX,
            ;
            assert(usize::MAX * u64::MAX <= u128::MAX) by (nonlinear_arith)
                requires
                    usize::MAX <= u64::MAX,
            ;
        }
        sum = sum + values[i] as u128;
        i = i + 1;
    }
    assert(values@.take(i as int) =~= values@);
    sum
}

/// Whether the comparison of `sum` with `target` holds.
fn verdict(operator: CmpOperator, sum: u128, target: u128) -> (holds: bool)
    ensures
        holds == operator_holds(operator, sum + 0, target + 0),
{
    cmp_with_operator(&operator, sum, target)
}

/// The values in parentheses, after a space.
fn items_of(values: &Vec<u64>) -> (text: String)
    ensures
        text@ == items_text(values@),
{
    let mut text = String::new();
    text.append(" (");
    push_joined(&mut text, values);
    text.append(")");
    text
}

/// Reports a roll that came to `values` on dice of `faces` faces.
pub fn report_roll(faces: u64, values: &Vec<u64>, comparison: Option<(CmpOperator, u128)>) -> (text:
    String)
    ensures
        text@ == roll_text(faces, values@, comparison),
{
    let sum = sum_of(values);
    let mut text = String::new();
    push_decimal(&mut text, values.len() as u128);
    text.append("D");
    push_decimal(&mut text, faces as u128);
    text.append(" -> ");
    push_decimal(&mut text, sum);
    if 1 < faces {
        let items = items_of(values);
        if items.as_str().unicode_len() <= 100 {
            text.append(items.as_str());
        }
    }
    match comparison {
        Some((operator, target)) => {
            text.append(" ");
            text.append(operator.to_text().as_str());
            text.append(" ");
            push_decimal(&mut text, target);
            text.append(" -> ");
            if verdict(operator, sum, target) {
                text.append("OK");
            } else {
                text.append("NG");
            }
        },
        None => {},
    }
    assert(text@ =~= roll_text(faces, values@, comparison));
    text
}

/// The answer to a roll for which these numbers were drawn, one for each
/// die: a refusal for more than `MAX_DICE` dice, for none, and for dice
/// without a face, and the report of the roll otherwise.
pub open spec fn roll_answer(
    num: u32,
    faces: u64,
    comparison: Option<(CmpOperator, u128)>,
    raws: Seq<u64>,
) -> Seq<char> {
    if num > MAX_DICE {
        "そんないっぱい振れないよ"@
    } else if num == 0 {
        "じゃあ振らないよ"@
    } else if faces == 0 {
        "数字がおかしいよ"@
    } else {
        roll_text(faces, faces_shown(raws, faces), comparison)
    }
}

/// The answer to `dice` for the numbers drawn.
pub open spec fn dice_answer(dice: Dice, raws: Seq<u64>) -> Seq<char> {
    roll_answer(dice.num, dice.dice, dice.cmp, raws)
}

/// Rolls `num` dice of `faces` faces and answers.
fn roll_parts(num: u32, faces: u64, comparison: Option<(CmpOperator, u128)>) -> (rolled: (
    String,
    Ghost<Seq<u64>>,
))
    ensures
        rolled.1@.len() == if 0 < num <= MAX_DICE && faces > 0 {
            num as nat
        } else {
            0
        },
        rolled.0@ == roll_answer(num, faces, comparison, rolled.1@),
{
    if num > MAX_DICE {
        return ("そんないっぱい振れないよ".to_owned(), Ghost(Seq::empty()));
    }
    if num == 0 {
        return ("じゃあ振らないよ".to_owned(), Ghost(Seq::empty()));
    }
    if faces == 0 {
        return ("数字がおかしいよ".to_owned(), Ghost(Seq::empty()));
    }
    let mut values: Vec<u64> = Vec::new();
    let ghost mut raws: Seq<u64> = Seq::empty();
    let mut i: u32 = 0;
    while i < num
        invariant
            i <= num,
            faces > 0,
            raws.len() == i,
            values@ == faces_shown(raws, faces),
        decreases num - i,
    {
        let raw = random_u64();
        values.push(raw % faces + 1);
        proof {
            raws = raws.push(raw);
            assert(values@ =~= faces_shown(raws, faces));
        }
        i = i + 1;
    }
    (report_roll(faces, &values, comparison), Ghost(raws))
}

/// Rolls the dice and answers: with a refusal for more than `MAX_DICE`
/// dice, for none, and for dice without a face; otherwise with the report
/// of a roll of `num` dice, each showing one more than the remainder of
/// some number by the number of faces.
pub fn roll(dice: &Dice) -> (text: String)
    ensures
        exists|raws: Seq<u64>|
            raws.len() == (if 0 < dice.num <= MAX_DICE && dice.dice > 0 {
                dice.num + 0
            } else {
                0
            }) && text@ == #[trigger] dice_answer(*dice, raws),
{
    let (text, raws) = roll_parts(dice.num, dice.dice, dice.cmp);
    assert(text@ == dice_answer(*dice, raws@));
    text
}

} // verus!
