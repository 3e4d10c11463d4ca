//! The commands: from their arguments to what is to be done or said.

use vstd::prelude::*;
use vstd::string::*;
use crate::mention::{mention_text, push_mention, resolve_mention, resolved_mention};
use crate::notice::{notice_text, Notice};
use crate::pattern::{code_block, code_in};
use crate::prime::{factorization, factorize, is_factorization};
use crate::text::{decimal, joined, parse_unsigned, push_decimal, push_joined, unsigned_value};
use crate::words::{
    blank, is_blank, join_from, joined_with, pieces_from, split_at_char, texts, trim, trimmed,
};

verus! {

/// A jail command that names its subject.
#[derive(Clone, Debug, PartialEq, Eq)]
pub struct JailCall {
    pub subject: u64,
    /// The expression of the term, where one was given.
    pub expression: Option<String>,
}

/// What a channel command asks for.
#[derive(Clone, Copy, Debug, PartialEq, Eq, Structural)]
pub enum ChannelAction {
    /// Show the channels.
    List,
    /// Write to the channel of this index from now on.
    Switch(usize),
    /// Answer with this notice.
    Reply(Notice),
}

/// A variable and the expression whose value it is to get.
#[derive(Clone, Debug, PartialEq, Eq)]
pub struct Assignment {
    pub name: String,
    pub expression: String,
}

/// The view of an assignment.
pub open spec fn assignment_texts(assignment: Assignment) -> (Seq<char>, Seq<char>) {
    (assignment.name@, assignment.expression@)
}

/// The views of a sequence of assignments.
pub open spec fn assignments_texts(assignments: Seq<Assignment>) -> Seq<(Seq<char>, Seq<char>)> {
    assignments.map_values(|a: Assignment| assignment_texts(a))
}

/// The subject and the expression of a jail command: the first argument
/// must mention the subject, the others make up the expression, with one
/// space between each two.
pub open spec fn jail_arguments(args: Seq<Seq<char>>) -> Result<(u64, Option<Seq<char>>), Notice> {
    if args.len() == 0 {
        Err(Notice::JailUsage)
    } else {
        match resolved_mention(args[0]) {
            None => Err(Notice::Who),
            Some(subject) => Ok(
                (
                    subject,
                    if args.len() == 1 {
                        None
                    } else {
                        Some(joined_with(args.skip(1), " "@))
                    },
                ),
            ),
        }
    }
}

/// The subject that the single argument of a command mentions; `usage`
/// for another number of arguments, `unknown` for what is no mention.
pub open spec fn single_subject(args: Seq<Seq<char>>, usage: Notice, unknown: Notice) -> Result<
    u64,
    Notice,
> {
    if args.len() != 1 {
        Err(usage)
    } else {
        match resolved_mention(args[0]) {
            None => Err(unknown),
            Some(subject) => Ok(subject),
        }
    }
}

/// Reads the arguments of a jail command.
pub fn jail_main(args: &Vec<String>) -> (call: Result<JailCall, Notice>)
    ensures
        match jail_arguments(texts(args@)) {
            Ok((subject, expression)) => call matches Ok(found) && found.subject == subject && match (
                expression,
                found.expression,
            ) {
                (Some(wanted), Some(given)) => given@ == wanted,
                (None, None) => true,
                _ => false,
            },
            Err(notice) => call == Err::<JailCall, Notice>(notice),
        },
{
    if args.len() == 0 {
        return Err(Notice::JailUsage);
    }
    assert(texts(args@)[0] == args@[0]@);
    match resolve_mention(args[0].as_str()) {
        None => Err(Notice::Who),
        Some(subject) => {
            if args.len() == 1 {
                Ok(JailCall { subject, expression: None })
            } else {
                Ok(JailCall { subject, expression: Some(join_from(args, 1, " ")) })
            }
        },
    }
}

/// Reads the single mention that a command takes.
fn subject_argument(args: &Vec<String>, usage: Notice, unknown: Notice) -> (subject: Result<
    u64,
    Notice,
>)
    ensures
        subject == single_subject(texts(args@), usage, unknown),
{
    if args.len() != 1 {
        return Err(usage);
    }
    assert(texts(args@)[0] == args@[0]@);
    match resolve_mention(args[0].as_str()) {
        None => Err(unknown),
        Some(subject) => Ok(subject),
    }
}

/// Reads the arguments of an unjail command: one mention.
pub fn unjail_main(args: &Vec<String>) -> (subject: Result<u64, Notice>)
    ensures
        subject == single_subject(texts(args@), Notice::UnjailUsage, Notice::Who),
{
    subject_argument(args, Notice::UnjailUsage, Notice::Who)
}

/// Reads the arguments of a cclemon command: one mention, the opponent.
pub fn cclemon(args: &Vec<String>) -> (opponent: Result<u64, Notice>)
    ensures
        opponent == single_subject(texts(args@), Notice::CcLemonUsage, Notice::MentionOpponent),
{
    subject_argument(args, Notice::CcLemonUsage, Notice::MentionOpponent)
}

/// The list of the factors as `[a, b, c]`.
pub open spec fn factors_text(factors: Seq<u64>) -> Seq<char> {
    "["@ + joined(factors) + "]"@
}

/// What is said of a number with these prime factors.
pub open spec fn prime_text(n: u64, factors: Seq<u64>) -> Seq<char> {
    decimal(n as nat) + "は"@ + if factors.len() == 1 {
        "素数だよ"@
    } else if factors.len() == 0 {
        "素数じゃないよ。あたりまえでしょ？"@
    } else {
        "素数じゃないよ。素因数は"@ + factors_text(factors) + "だよ"@
    }
}

/// Says whether `n` is prime, given its prime factors: that it is, for
/// one factor; that it plainly is not, for none; and the factors else.
pub fn prime_report(n: u64, factors: &Vec<u64>) -> (text: String)
    ensures
        text@ == prime_text(n, factors@),
{
    let mut text = String::new();
    push_decimal(&mut text, n as u128);
    text.append("は");
    if factors.len() == 1 {
        text.append("素数だよ");
    } else if factors.len() == 0 {
        text.append("素数じゃないよ。あたりまえでしょ？");
    } else {
        text.append("素数じゃないよ。素因数は");
        text.append("[");
        push_joined(&mut text, factors);
        text.append("]");
        text.append("だよ");
    }
    assert(text@ =~= prime_text(n, factors@));
    text
}

/// The answer to an isprime command: the usage unless there is one
/// argument, a notice where that is no number of 64 bits, and else what
/// is said of the number and its prime factorization.
pub open spec fn isprime_text(args: Seq<Seq<char>>) -> Seq<char> {
    if args.len() != 1 {
        notice_text(Notice::IsPrimeUsage)
    } else {
        match unsigned_value(args[0], u64::MAX as nat) {
            None => notice_text(Notice::NotANumber),
            Some(n) => prime_text(n as u64, factorization(n)),
        }
    }
}

/// Answers an isprime command. The factorization that the answer speaks
/// of is the one of the number: its primes in ascending order.
pub fn isprime(args: &Vec<String>) -> (text: String)
    ensures
        text@ == isprime_text(texts(args@)),
        texts(args@).len() == 1 ==> (unsigned_value(texts(args@)[0], u64::MAX as nat) matches Some(
            n,
        ) ==> is_factorization(n, factorization(n))),
{
    if args.len() != 1 {
        return Notice::IsPrimeUsage.text();
    }
    assert(texts(args@)[0] == args@[0]@);
    match parse_unsigned(args[0].as_str(), 0xffff_ffff_ffff_ffff) {
        None => Notice::NotANumber.text(),
        Some(n) => {
            let factors = factorize(n as u64);
            prime_report(n as u64, &factors)
        },
    }
}

/// What a channel command with these arguments asks for, where `count`
/// channels can be written to.
pub open spec fn channel_action(args: Seq<Seq<char>>, count: nat) -> ChannelAction {
    if args.len() == 0 {
        ChannelAction::List
    } else {
        match unsigned_value(args[0], usize::MAX as nat) {
            None => ChannelAction::Reply(Notice::ChannelNotNumber),
            Some(index) => if index < count {
                ChannelAction::Switch(index as usize)
            } else {
                ChannelAction::Reply(Notice::ChannelUnknown)
            },
        }
    }
}

/// Reads the arguments of a channel command: none to see the channels, or
/// the index of the channel to write to.
pub fn channel(args: &Vec<String>, count: usize) -> (action: ChannelAction)
    ensures
        action == channel_action(texts(args@), count as nat),
{
    if args.len() == 0 {
        return ChannelAction::List;
    }
    assert(texts(args@)[0] == args@[0]@);
    match parse_unsigned(args[0].as_str(), usize::MAX as u128) {
        None => ChannelAction::Reply(Notice::ChannelNotNumber),
        Some(index) => {
            if index < count as u128 {
                ChannelAction::Switch(index as usize)
            } else {
                ChannelAction::Reply(Notice::ChannelUnknown)
            }
        },
    }
}

/// How a channel is written in a message: its id between `<#` and `>`.
pub open spec fn channel_text(channel: u64) -> Seq<char> {
    "<#"@ + decimal(channel as nat) + ">"@
}

/// The line of a channel in the list: its index, flush right in two
/// columns, a tab, and its name.
pub open spec fn channel_line(index: nat, name: Seq<char>) -> Seq<char> {
    (if index < 10 {
        " "@
    } else {
        Seq::empty()
    }) + decimal(index) + "\t"@ + name + "\n"@
}

/// The lines of the channels.
pub open spec fn channel_lines(names: Seq<Seq<char>>) -> Seq<char>
    decreases names.len(),
{
    if names.len() == 0 {
        Seq::empty()
    } else {
        channel_lines(names.drop_last()) + channel_line((names.len() - 1) as nat, names.last())
    }
}

/// The list of the channels: the one that is written to, and all of them
/// by index.
pub open spec fn channel_list_text(current: u64, names: Seq<Seq<char>>) -> Seq<char> {
    "今は"@ + channel_text(current) + "で代筆してるよ\n"@ + "```チャンネル一覧だよ\n"@ + channel_lines(names)
        + "```"@ + "使い方: `!channel <ID>`"@
}

/// Appends how `channel` is written in a message.
fn push_channel(text: &mut String, channel: u64)
    ensures
        final(text)@ == old(text)@ + channel_text(channel),
{
    text.append("<#");
    push_decimal(text, channel as u128);
    text.append(">");
    assert(text@ =~= old(text)@ + channel_text(channel));
}

/// The list that a channel command without arguments shows.
pub fn channel_list(current: u64, names: &Vec<String>) -> (text: String)
    ensures
        text@ == channel_list_text(current, texts(names@)),
{
    let mut text = String::new();
    text.append("今は");
    push_channel(&mut text, current);
    text.append("で代筆してるよ\n");
    text.append("```チャンネル一覧だよ\n");
    let ghost head = text@;
    let mut i: usize = 0;
    assert(texts(names@).take(0) =~= Seq::<Seq<char>>::empty());
    assert(text@ =~= head + channel_lines(texts(names@).take(0)));
    while i < names.len()
        invariant
            i <= names.len(),
            text@ == head + channel_lines(texts(names@).take(i as int)),
        decreases names.len() - i,
    {
        assert(texts(names@).take(i + 1).drop_last() =~= texts(names@).take(i as int));
        assert(texts(names@).take(i + 1).last() == names@[i as int]@);
        if i < 10 {
            text.append(" ");
        }
        push_decimal(&mut text, i as u128);
        text.append("\t");
        text.append(names[i].as_str());
        text.append("\n");
        assert(text@ =~= head + channel_lines(texts(names@).take(i + 1)));
        i = i + 1;
    }
    assert(texts(names@).take(i as int) =~= texts(names@));
    text.append("```");
    text.append("使い方: `!channel <ID>`");
    assert(text@ =~= channel_list_text(current, texts(names@)));
    text
}

/// "The messages now go to {channel}."
pub open spec fn switched_text(channel: u64) -> Seq<char> {
    "送信先を"@ + channel_text(channel) + "に設定したよ"@
}

/// What is said after the switch to `channel`.
pub fn channel_switched(channel: u64) -> (text: String)
    ensures
        text@ == switched_text(channel),
{
    let mut text = String::new();
    text.append("送信先を");
    push_channel(&mut text, channel);
    text.append("に設定したよ");
    assert(text@ =~= switched_text(channel));
    text
}

/// The name of the variable that takes a value that is given no name.
pub open spec fn default_variable() -> Seq<char> {
    "_"@
}

/// The variable and the expression of an assignment: what stands before
/// the first `=`, without the white space around it, and what stands
/// after it. A text without `=` is an expression for the default
/// variable.
pub open spec fn assignment_of(input: Seq<char>) -> (Seq<char>, Seq<char>) {
    let pieces = pieces_from(input, 0, '=');
    if pieces.len() < 2 {
        (default_variable(), input)
    } else {
        (trimmed(pieces[0]), joined_with(pieces.skip(1), "="@))
    }
}

/// Reads an assignment `name = expression`.
pub fn var(input: &str) -> (assignment: Assignment)
    ensures
        assignment_texts(assignment) == assignment_of(input@),
{
    let pieces = split_at_char(input, '=');
    if pieces.len() < 2 {
        Assignment { name: "_".to_owned(), expression: input.to_owned() }
    } else {
        assert(texts(pieces@)[0] == pieces@[0]@);
        Assignment { name: trim(pieces[0].as_str()), expression: join_from(&pieces, 1, "=") }
    }
}

/// The assignment of an expression to the default variable.
pub fn calc(expression: &str) -> (assignment: Assignment)
    ensures
        assignment_texts(assignment) == (default_variable(), expression@),
{
    Assignment { name: "_".to_owned(), expression: expression.to_owned() }
}

/// The assignments among the pieces: one for each piece that is not
/// blank, in order.
pub open spec fn assignments_among(pieces: Seq<Seq<char>>) -> Seq<(Seq<char>, Seq<char>)>
    decreases pieces.len(),
{
    if pieces.len() == 0 {
        Seq::empty()
    } else if is_blank(pieces.last()) {
        assignments_among(pieces.drop_last())
    } else {
        assignments_among(pieces.drop_last()).push(assignment_of(pieces.last()))
    }
}

/// The assignments of a code: those among its pieces between `;`.
pub open spec fn assignments_of(code: Seq<char>) -> Seq<(Seq<char>, Seq<char>)> {
    assignments_among(pieces_from(code, 0, ';'))
}

/// Reads the assignments of a code, which `;` parts.
pub fn assignments_in(code: &str) -> (assignments: Vec<Assignment>)
    ensures
        assignments_texts(assignments@) == assignments_of(code@),
{
    let pieces = split_at_char(code, ';');
    let mut assignments: Vec<Assignment> = Vec::new();
    let mut i: usize = 0;
    assert(texts(pieces@).take(0) =~= Seq::<Seq<char>>::empty());
    assert(assignments_texts(assignments@) =~= assignments_among(texts(pieces@).take(0)));
    while i < pieces.len()
        invariant
            i <= pieces.len(),
            assignments_texts(assignments@) == assignments_among(texts(pieces@).take(i as int)),
        decreases pieces.len() - i,
    {
        assert(texts(pieces@).take(i + 1).drop_last() =~= texts(pieces@).take(i as int));
        assert(texts(pieces@).take(i + 1).last() == pieces@[i as int]@);
        if !blank(pieces[i].as_str()) {
            let ghost before = assignments@;
            let assignment = var(pieces[i].as_str());
            assignments.push(assignment);
            assert(assignments_texts(assignments@) =~= assignments_texts(before).push(
                assignment_of(pieces@[i as int]@),
            ));
        }
        i = i + 1;
    }
    assert(texts(pieces@).take(i as int) =~= texts(pieces@));
    assignments
}

/// Reads the assignments of a varbulk command: those of its first code
/// block, none without one.
pub fn varbulk(input: &str) -> (assignments: Vec<Assignment>)
    ensures
        assignments_texts(assignments@) == match code_in(input@) {
            Some(code) => assignments_of(code),
            None => Seq::empty(),
        },
{
    match code_block(input) {
        Some(code) => assignments_in(code.as_str()),
        None => {
            let assignments: Vec<Assignment> = Vec::new();
            assert(assignments_texts(assignments@) =~= Seq::empty());
            assignments
        },
    }
}

/// What is said after an evaluation: the value, or the error and a
/// shrug.
pub fn var_main(outcome: &Result<String, String>) -> (text: String)
    ensures
        text@ == match *outcome {
            Ok(value) => value@,
            Err(error) => error@ + " ……だってさ。"@,
        },
{
    match outcome {
        Ok(value) => value.clone(),
        Err(error) => {
            let mut text = error.clone();
            text.append(" ……だってさ。");
            text
        },
    }
}

/// Whether a member with these roles carries `role`.
pub fn erocheck(roles: &Vec<u64>, role: u64) -> (notice: Notice)
    ensures
        notice == if roles@.contains(role) {
            Notice::Marked
        } else {
            Notice::Unmarked
        },
{
    let mut i: usize = 0;
    while i < roles.len()
        invariant
            i <= roles.len(),
            forall|j: int| 0 <= j < i ==> roles@[j] != role,
        decreases roles.len() - i,
    {
        if roles[i] == role {
            return Notice::Marked;
        }
        i = i + 1;
    }
    Notice::Unmarked
}

/// The room that a member's messages are passed on to: the one that the
/// member chose, and the first of the channels without a choice.
pub fn get_user_room_pointer(chosen: Option<u64>, channels: &Vec<u64>) -> (room: Option<u64>)
    ensures
        room == match chosen {
            Some(room) => Some(room),
            None => if channels@.len() > 0 {
                Some(channels@[0])
            } else {
                None
            },
        },
{
    match chosen {
        Some(room) => Some(room),
        None => {
            if channels.len() > 0 {
                Some(channels[0])
            } else {
                None
            }
        },
    }
}

} // verus!
