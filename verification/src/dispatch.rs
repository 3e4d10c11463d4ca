//! From a message to the command it asks for.

use vstd::prelude::*;
use vstd::string::*;
use crate::bf::{run, run_text, OptionValue};
use crate::notice::{notice_text, Notice};
use crate::parser::{dice_notation, parse_dice, Dice, DiceError};
use crate::pattern::{command_in, command_input};
use crate::text::{chars_of, same_text};
use crate::words::{slice_of, split_words, texts, words_of};

verus! {

/// A command of the bot.
#[derive(Clone, Copy, Debug, PartialEq, Eq, Structural)]
pub enum Command {
    Channel,
    EroCheck,
    Help,
    Ping,
    Calc,
    Var,
    VarBulk,
    CalcSay,
    IsPrime,
    CcLemon,
    Jail,
    Unjail,
    Clear,
    Unknown,
}

/// What to do with a message from the community's channels.
#[derive(Clone, Copy, Debug, PartialEq, Eq)]
pub enum GuildAction {
    /// Nothing: the message is from a bot or not for this one.
    Ignore,
    /// Roll these dice.
    Roll(Dice),
    /// Answer with this notice.
    Reply(Notice),
    /// Run this command with the arguments.
    Run(Command),
    /// Answer freely.
    Chat,
}

/// What to do with a direct message.
#[derive(Clone, Copy, Debug, PartialEq, Eq, Structural)]
pub enum DirectAction {
    /// Pass the message on to the room that the author writes to.
    Forward,
    /// Answer with this notice.
    Reply(Notice),
    /// Run this command with the arguments.
    Run(Command),
}

/// The action for a message from a channel, with the arguments of the
/// command where one is run.
#[derive(Clone, Debug, PartialEq, Eq)]
pub struct GuildStep {
    pub action: GuildAction,
    pub args: Vec<String>,
}

/// The action for a direct message, with the arguments of the command
/// where one is run.
#[derive(Clone, Debug, PartialEq, Eq)]
pub struct DirectStep {
    pub action: DirectAction,
    pub args: Vec<String>,
}

/// One of the names of the help command.
pub open spec fn names_help(name: Seq<char>) -> bool {
    name == "help"@ || name == "たすけて"@ || name == "助けて"@
}

/// The command that a name stands for in a channel.
pub open spec fn guild_command(name: Seq<char>) -> Command {
    if names_help(name) {
        Command::Help
    } else if name == "isprime"@ {
        Command::IsPrime
    } else if name == "calc"@ {
        Command::Calc
    } else if name == "var"@ {
        Command::Var
    } else if name == "varbulk"@ {
        Command::VarBulk
    } else if name == "cclemon"@ {
        Command::CcLemon
    } else if name == "jail"@ {
        Command::Jail
    } else if name == "unjail"@ {
        Command::Unjail
    } else if name == "clear"@ || name == "全部忘れて"@ {
        Command::Clear
    } else {
        Command::Unknown
    }
}

/// The command that a name stands for in a direct message.
pub open spec fn direct_command(name: Seq<char>) -> Command {
    if name == "channel"@ {
        Command::Channel
    } else if name == "erocheck"@ {
        Command::EroCheck
    } else if names_help(name) {
        Command::Help
    } else if name == "ping"@ {
        Command::Ping
    } else if name == "calc"@ {
        Command::Calc
    } else if name == "var"@ {
        Command::Var
    } else if name == "varbulk"@ {
        Command::VarBulk
    } else if name == "calcsay"@ {
        Command::CalcSay
    } else {
        Command::Unknown
    }
}

/// The text begins with `!`.
pub open spec fn has_bang(content: Seq<char>) -> bool {
    content.len() > 0 && content[0] == '!'
}

/// The first word of a text; empty where it has none.
pub open spec fn first_word(input: Seq<char>) -> Seq<char> {
    if words_of(input).len() > 0 {
        words_of(input)[0]
    } else {
        Seq::empty()
    }
}

/// The words after the first; none where there is no word.
pub open spec fn after_first(words: Seq<Seq<char>>) -> Seq<Seq<char>> {
    if words.len() > 0 {
        words.skip(1)
    } else {
        Seq::empty()
    }
}

/// The name of the command of a direct message: its first word without
/// the first character.
pub open spec fn direct_name(content: Seq<char>) -> Seq<char> {
    if first_word(content).len() > 0 {
        first_word(content).skip(1)
    } else {
        Seq::empty()
    }
}

/// The action for a command text from a channel. Dice notation at its
/// head is rolled, or refused where a number is out of range. Otherwise
/// the first word names the command; a word that names none is an unknown
/// command where the message began with `!`, and else talk, which is
/// answered in the bot's own room only.
pub open spec fn guild_action(input: Seq<char>, bang: bool, own_room: bool) -> GuildAction {
    match dice_notation(input) {
        Ok((dice, _)) => GuildAction::Roll(dice),
        Err(DiceError::OutOfRange) => GuildAction::Reply(Notice::BadNumber),
        Err(_) => match guild_command(first_word(input)) {
            Command::Unknown => if bang {
                GuildAction::Reply(Notice::UnknownCommand)
            } else if own_room {
                GuildAction::Chat
            } else {
                GuildAction::Ignore
            },
            command => GuildAction::Run(command),
        },
    }
}

/// The arguments that go with an action: for a command that is run, the
/// words after the first.
pub open spec fn guild_args(input: Seq<char>, action: GuildAction) -> Seq<Seq<char>> {
    if action is Run {
        after_first(words_of(input))
    } else {
        Seq::empty()
    }
}

/// The action for a message from a channel: none for a bot's message and
/// for one that does not address the bot, and else that of the command
/// text in it.
pub open spec fn guild_message_action(content: Seq<char>, from_bot: bool, own_room: bool)
    -> GuildAction {
    if from_bot {
        GuildAction::Ignore
    } else {
        match command_in(content) {
            Some(input) => guild_action(input, has_bang(content), own_room),
            None => GuildAction::Ignore,
        }
    }
}

/// The arguments that go with the action for a message from a channel.
pub open spec fn guild_message_args(content: Seq<char>, from_bot: bool, action: GuildAction) -> Seq<
    Seq<char>,
> {
    if from_bot {
        Seq::empty()
    } else {
        match command_in(content) {
            Some(input) => guild_args(input, action),
            None => Seq::empty(),
        }
    }
}

/// The action for a direct message: it is passed on unless it begins with
/// `!`; then the first word without the `!` names the command.
pub open spec fn direct_action(content: Seq<char>) -> DirectAction {
    if !has_bang(content) {
        DirectAction::Forward
    } else {
        match direct_command(direct_name(content)) {
            Command::Unknown => DirectAction::Reply(Notice::UnknownCommand),
            command => DirectAction::Run(command),
        }
    }
}

/// The arguments of a direct message: the words after the first, for a
/// command that is run.
pub open spec fn direct_args(content: Seq<char>) -> Seq<Seq<char>> {
    if direct_action(content) is Run {
        after_first(words_of(content))
    } else {
        Seq::empty()
    }
}

/// The command that `name` stands for in a channel.
pub fn guild_command_named(name: &str) -> (command: Command)
    ensures
        command == guild_command(name@),
{
    if same_text(name, "help") || same_text(name, "たすけて") || same_text(name, "助けて") {
        Command::Help
    } else if same_text(name, "isprime") {
        Command::IsPrime
    } else if same_text(name, "calc") {
        Command::Calc
    } else if same_text(name, "var") {
        Command::Var
    } else if same_text(name, "varbulk") {
        Command::VarBulk
    } else if same_text(name, "cclemon") {
        Command::CcLemon
    } else if same_text(name, "jail") {
        Command::Jail
    } else if same_text(name, "unjail") {
        Command::Unjail
    } else if same_text(name, "clear") || same_text(name, "全部忘れて") {
        Command::Clear
    } else {
        Command::Unknown
    }
}

/// The command that `name` stands for in a direct message.
pub fn direct_command_named(name: &str) -> (command: Command)
    ensures
        command == direct_command(name@),
{
    if same_text(name, "channel") {
        Command::Channel
    } else if same_text(name, "erocheck") {
        Command::EroCheck
    } else if same_text(name, "help") || same_text(name, "たすけて") || same_text(name, "助けて") {
        Command::Help
    } else if same_text(name, "ping") {
        Command::Ping
    } else if same_text(name, "calc") {
        Command::Calc
    } else if same_text(name, "var") {
        Command::Var
    } else if same_text(name, "varbulk") {
        Command::VarBulk
    } else if same_text(name, "calcsay") {
        Command::CalcSay
    } else {
        Command::Unknown
    }
}

/// The words after the first.
fn rest_of(words: Vec<String>) -> (rest: Vec<String>)
    ensures
        texts(rest@) == after_first(texts(words@)),
{
    let mut rest: Vec<String> = Vec::new();
    let mut i: usize = 1;
    if words.len() == 0 {
        assert(texts(rest@) =~= after_first(texts(words@)));
        return rest;
    }
    assert(texts(rest@) =~= texts(words@).subrange(1, 1));
    while i < words.len()
        invariant
            1 <= i <= words.len(),
            rest@.len() == i - 1,
            texts(rest@) == texts(words@).subrange(1, i as int),
        decreases words.len() - i,
    {
        let ghost before = rest@;
        let word = words[i].clone();
        rest.push(word);
        assert forall|k: int| 0 <= k < rest@.len() implies texts(rest@)[k] == texts(
            words@,
        ).subrange(1, i + 1)[k] by {
            if k < before.len() {
                assert(texts(before)[k] == texts(words@).subrange(1, i as int)[k]);
            }
        }
        assert(texts(rest@) =~= texts(words@).subrange(1, i + 1));
        i = i + 1;
    }
    assert(texts(words@).subrange(1, i as int) =~= texts(words@).skip(1));
    rest
}

/// Decides what to do with the command text of a message from a channel;
/// `bang` says whether the message began with `!`, `own_room` whether it
/// was written in the bot's own room.
pub fn guild_step(input: &str, bang: bool, own_room: bool) -> (step: GuildStep)
    ensures
        step.action == guild_action(input@, bang, own_room),
        texts(step.args@) == guild_args(input@, step.action),
{
    match parse_dice(input) {
        Ok((_, dice)) => {
            let step = GuildStep { action: GuildAction::Roll(dice), args: Vec::new() };
            assert(texts(step.args@) =~= Seq::<Seq<char>>::empty());
            return step;
        },
        Err(DiceError::OutOfRange) => {
            let step = GuildStep { action: GuildAction::Reply(Notice::BadNumber), args: Vec::new() };
            assert(texts(step.args@) =~= Seq::<Seq<char>>::empty());
            return step;
        },
        Err(_) => {},
    }
    let words = split_words(input);
    let command = if words.len() > 0 {
        assert(texts(words@)[0] == words@[0]@);
        guild_command_named(words[0].as_str())
    } else {
        proof {
            reveal_strlit("");
        }
        assert(""@ =~= first_word(input@));
        guild_command_named("")
    };
    match command {
        Command::Unknown => {
            let action = if bang {
                GuildAction::Reply(Notice::UnknownCommand)
            } else if own_room {
                GuildAction::Chat
            } else {
                GuildAction::Ignore
            };
            let step = GuildStep { action, args: Vec::new() };
            assert(texts(step.args@) =~= Seq::<Seq<char>>::empty());
            step
        },
        command => GuildStep { action: GuildAction::Run(command), args: rest_of(words) },
    }
}

/// Whether the text begins with `!`.
pub fn starts_with_bang(content: &str) -> (bang: bool)
    ensures
        bang == has_bang(content@),
{
    let chars = chars_of(content);
    chars.len() > 0 && chars[0] == '!'
}

/// Decides what to do with a message from a channel.
pub fn guild_message(content: &str, from_bot: bool, own_room: bool) -> (step: GuildStep)
    ensures
        step.action == guild_message_action(content@, from_bot, own_room),
        texts(step.args@) == guild_message_args(content@, from_bot, step.action),
{
    if !from_bot {
        if let Some(input) = command_input(content) {
            return guild_step(input.as_str(), starts_with_bang(content), own_room);
        }
    }
    let step = GuildStep { action: GuildAction::Ignore, args: Vec::new() };
    assert(texts(step.args@) =~= Seq::<Seq<char>>::empty());
    step
}

/// Decides what to do with a direct message.
pub fn direct_message(content: &str) -> (step: DirectStep)
    ensures
        step.action == direct_action(content@),
        texts(step.args@) == direct_args(content@),
{
    if !starts_with_bang(content) {
        let step = DirectStep { action: DirectAction::Forward, args: Vec::new() };
        assert(texts(step.args@) =~= Seq::<Seq<char>>::empty());
        return step;
    }
    let words = split_words(content);
    let command = if words.len() > 0 {
        assert(texts(words@)[0] == words@[0]@);
        let first = chars_of(words[0].as_str());
        if first.len() > 0 {
            let name = slice_of(&first, 1, first.len());
            assert(name@ =~= direct_name(content@));
            direct_command_named(name.as_str())
        } else {
            proof {
                reveal_strlit("");
            }
            assert(direct_name(content@) =~= ""@);
            direct_command_named("")
        }
    } else {
        proof {
            reveal_strlit("");
        }
        assert(direct_name(content@) =~= ""@);
        direct_command_named("")
    };
    match command {
        Command::Unknown => {
            let step = DirectStep {
                action: DirectAction::Reply(Notice::UnknownCommand),
                args: Vec::new(),
            };
            assert(texts(step.args@) =~= Seq::<Seq<char>>::empty());
            step
        },
        command => DirectStep { action: DirectAction::Run(command), args: rest_of(words) },
    }
}

/// The answer to a slash command: that of `bf` to its options, and a
/// notice for any other name.
pub open spec fn slash_text(name: Seq<char>, options: Seq<OptionValue>) -> Seq<char> {
    if name == "bf"@ {
        run_text(options)
    } else {
        notice_text(Notice::UnknownSlashCommand)
    }
}

/// Answers a slash command.
pub fn slash_reply(name: &str, options: &[OptionValue]) -> (answer: String)
    ensures
        answer@ == slash_text(name@, options@),
{
    if same_text(name, "bf") {
        run(options)
    } else {
        Notice::UnknownSlashCommand.text()
    }
}

} // verus!
