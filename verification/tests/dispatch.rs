use udamanami::bf::OptionValue;
use udamanami::dispatch::{
    direct_command_named, direct_message, guild_command_named, guild_message, guild_step,
    slash_reply, starts_with_bang, Command, DirectAction, GuildAction,
};
use udamanami::notice::Notice;
use udamanami::parser::{CmpOperator, Dice};
use udamanami::pattern::{code_block, command_input};

fn guild(content: &str) -> (GuildAction, Vec<String>) {
    let step = guild_message(content, false, false);
    (step.action, step.args)
}

fn direct(content: &str) -> (DirectAction, Vec<String>) {
    let step = direct_message(content);
    (step.action, step.args)
}

fn none() -> Vec<String> {
    Vec::new()
}

fn words(items: &[&str]) -> Vec<String> {
    items.iter().map(|item| item.to_string()).collect()
}

#[test]
fn command_text_follows_the_name_or_bang() {
    assert_eq!(command_input("!help"), Some("help".to_string()));
    assert_eq!(command_input("まなみ help"), Some("help".to_string()));
    assert_eq!(command_input("まなみちゃん、help"), Some("help".to_string()));
    assert_eq!(command_input("まなみはhelp"), Some("help".to_string()));
    assert_eq!(command_input("まなみってhelp"), Some("help".to_string()));
    assert_eq!(command_input("まなみのhelp"), Some("help".to_string()));
    assert_eq!(command_input("まなみhelp"), Some("help".to_string()));
    assert_eq!(command_input("ねえまなみ calc 1+1"), Some("calc 1+1".to_string()));
    assert_eq!(command_input("a!b!c"), Some("b!c".to_string()));
    assert_eq!(command_input("!まなみ help"), Some("まなみ help".to_string()));
    assert_eq!(command_input("!a\nb"), Some("a\nb".to_string()));
    assert_eq!(command_input("!"), Some(String::new()));
    assert_eq!(command_input("hello"), None);
    assert_eq!(command_input(""), None);
}

#[test]
fn code_blocks_are_found_on_one_line() {
    assert_eq!(code_block("```;a=1```"), Some(";a=1".to_string()));
    assert_eq!(code_block("x ``` a=1 ``` y"), Some(" a=1 ".to_string()));
    assert_eq!(code_block("```rust a=1```"), Some(" a=1".to_string()));
    assert_eq!(code_block("```a=1```"), Some("=1".to_string()));
    assert_eq!(code_block("``````"), Some(String::new()));
    assert_eq!(code_block("```\na=1\n```"), None);
    assert_eq!(code_block("a=1"), None);
}

#[test]
fn guild_commands_have_names() {
    assert_eq!(guild_command_named("help"), Command::Help);
    assert_eq!(guild_command_named("たすけて"), Command::Help);
    assert_eq!(guild_command_named("助けて"), Command::Help);
    assert_eq!(guild_command_named("isprime"), Command::IsPrime);
    assert_eq!(guild_command_named("calc"), Command::Calc);
    assert_eq!(guild_command_named("var"), Command::Var);
    assert_eq!(guild_command_named("varbulk"), Command::VarBulk);
    assert_eq!(guild_command_named("cclemon"), Command::CcLemon);
    assert_eq!(guild_command_named("jail"), Command::Jail);
    assert_eq!(guild_command_named("unjail"), Command::Unjail);
    assert_eq!(guild_command_named("clear"), Command::Clear);
    assert_eq!(guild_command_named("全部忘れて"), Command::Clear);
    assert_eq!(guild_command_named("ping"), Command::Unknown);
    assert_eq!(guild_command_named("channel"), Command::Unknown);
    assert_eq!(guild_command_named("Help"), Command::Unknown);
    assert_eq!(guild_command_named(""), Command::Unknown);
}

#[test]
fn direct_commands_have_names() {
    assert_eq!(direct_command_named("channel"), Command::Channel);
    assert_eq!(direct_command_named("erocheck"), Command::EroCheck);
    assert_eq!(direct_command_named("help"), Command::Help);
    assert_eq!(direct_command_named("たすけて"), Command::Help);
    assert_eq!(direct_command_named("助けて"), Command::Help);
    assert_eq!(direct_command_named("ping"), Command::Ping);
    assert_eq!(direct_command_named("calc"), Command::Calc);
    assert_eq!(direct_command_named("var"), Command::Var);
    assert_eq!(direct_command_named("varbulk"), Command::VarBulk);
    assert_eq!(direct_command_named("calcsay"), Command::CalcSay);
    assert_eq!(direct_command_named("jail"), Command::Unknown);
    assert_eq!(direct_command_named("isprime"), Command::Unknown);
    assert_eq!(direct_command_named(""), Command::Unknown);
}

#[test]
fn guild_messages_roll_dice() {
    assert_eq!(guild("!2d6"), (GuildAction::Roll(Dice { num: 2, dice: 6, cmp: None }), none()));
    assert_eq!(
        guild("まなみ 1D100 <= 30 がんばれ"),
        (
            GuildAction::Roll(Dice { num: 1, dice: 100, cmp: Some((CmpOperator::LessEqual, 30)) }),
            none()
        )
    );
    assert_eq!(guild("!99999999999d6"), (GuildAction::Reply(Notice::BadNumber), none()));
    assert_eq!(guild("!1d99999999999999999999"), (GuildAction::Reply(Notice::BadNumber), none()));
}

#[test]
fn guild_messages_run_commands() {
    assert_eq!(guild("!help"), (GuildAction::Run(Command::Help), none()));
    assert_eq!(guild("まなみ、たすけて"), (GuildAction::Run(Command::Help), none()));
    assert_eq!(guild("!isprime 57"), (GuildAction::Run(Command::IsPrime), words(&["57"])));
    assert_eq!(
        guild("!jail <@5>  10 +\t5\n"),
        (GuildAction::Run(Command::Jail), words(&["<@5>", "10", "+", "5"]))
    );
    assert_eq!(guild("!unjail <@5>"), (GuildAction::Run(Command::Unjail), words(&["<@5>"])));
    assert_eq!(guild("まなみ clear"), (GuildAction::Run(Command::Clear), none()));
    assert_eq!(guild("!  calc 1 + 1"), (GuildAction::Run(Command::Calc), words(&["1", "+", "1"])));
    assert_eq!(guild("!cclemon <@9>"), (GuildAction::Run(Command::CcLemon), words(&["<@9>"])));
    assert_eq!(guild("!var x=1"), (GuildAction::Run(Command::Var), words(&["x=1"])));
    assert_eq!(
        guild("!varbulk ```a=1;b=2```"),
        (GuildAction::Run(Command::VarBulk), words(&["```a=1;b=2```"]))
    );
}

#[test]
fn guild_messages_without_command() {
    assert_eq!(guild("hello"), (GuildAction::Ignore, none()));
    assert_eq!(guild("!nothing"), (GuildAction::Reply(Notice::UnknownCommand), none()));
    assert_eq!(guild("!"), (GuildAction::Reply(Notice::UnknownCommand), none()));
    assert_eq!(guild("! \n"), (GuildAction::Reply(Notice::UnknownCommand), none()));
    assert_eq!(guild("!ping"), (GuildAction::Reply(Notice::UnknownCommand), none()));
    assert_eq!(guild("まなみ、こんにちは"), (GuildAction::Ignore, none()));
    let talk = guild_message("まなみ、こんにちは", false, true);
    assert_eq!((talk.action, talk.args), (GuildAction::Chat, none()));
    let own = guild_message("hello", false, true);
    assert_eq!((own.action, own.args), (GuildAction::Ignore, none()));
    let bot = guild_message("!help", true, true);
    assert_eq!((bot.action, bot.args), (GuildAction::Ignore, none()));
}

#[test]
fn guild_steps_follow_the_command_text() {
    let step = guild_step("help me now", false, false);
    assert_eq!((step.action, step.args), (GuildAction::Run(Command::Help), words(&["me", "now"])));
    let step = guild_step("", false, true);
    assert_eq!((step.action, step.args), (GuildAction::Chat, none()));
    let step = guild_step("", true, true);
    assert_eq!((step.action, step.args), (GuildAction::Reply(Notice::UnknownCommand), none()));
    let step = guild_step("d6", false, false);
    assert_eq!((step.action, step.args), (GuildAction::Ignore, none()));
}

#[test]
fn direct_messages_are_passed_on_or_run() {
    assert_eq!(direct("hello"), (DirectAction::Forward, none()));
    assert_eq!(direct(""), (DirectAction::Forward, none()));
    assert_eq!(direct(" !ping"), (DirectAction::Forward, none()));
    assert_eq!(direct("!ping"), (DirectAction::Run(Command::Ping), none()));
    assert_eq!(direct("!channel 3"), (DirectAction::Run(Command::Channel), words(&["3"])));
    assert_eq!(direct("!erocheck"), (DirectAction::Run(Command::EroCheck), none()));
    assert_eq!(direct("!たすけて"), (DirectAction::Run(Command::Help), none()));
    assert_eq!(
        direct("!calcsay 1 +  2"),
        (DirectAction::Run(Command::CalcSay), words(&["1", "+", "2"]))
    );
    assert_eq!(direct("!jail <@5>"), (DirectAction::Reply(Notice::UnknownCommand), none()));
    assert_eq!(direct("! ping"), (DirectAction::Reply(Notice::UnknownCommand), none()));
    assert_eq!(direct("!"), (DirectAction::Reply(Notice::UnknownCommand), none()));
}

#[test]
fn bang_is_seen() {
    assert!(starts_with_bang("!x"));
    assert!(starts_with_bang("!"));
    assert!(!starts_with_bang(" !"));
    assert!(!starts_with_bang(""));
    assert!(!starts_with_bang("！"));
}

#[test]
fn slash_commands_answer() {
    let options = [OptionValue::Text(",.".to_string()), OptionValue::Text("z".to_string())];
    assert_eq!(slash_reply("bf", &options), "z");
    assert_eq!(slash_reply("dice", &options), "知らないコマンドだよ！");
}

#[test]
fn notices_have_texts() {
    assert_eq!(Notice::JailUsage.text(), "使い方: `!jail <user> [刑期（秒）]`");
    assert_eq!(Notice::UnjailUsage.text(), "使い方: `!unjail <user>`");
    assert_eq!(Notice::CcLemonUsage.text(), "使い方: `!cclemon <相手>`");
    assert_eq!(Notice::IsPrimeUsage.text(), "使い方: `!isprime <number>`");
    assert_eq!(Notice::Who.text(), "誰？");
    assert_eq!(Notice::MentionOpponent.text(), "相手をメンションで指定してね");
    assert_eq!(Notice::BadNumber.text(), "数字がおかしいよ");
    assert_eq!(Notice::UnknownCommand.text(), "しらないコマンドだよ");
    assert_eq!(Notice::UnknownSlashCommand.text(), "知らないコマンドだよ！");
    assert_eq!(Notice::NotANumber.text(), "わかんないよ");
    assert_eq!(Notice::ChannelNotNumber.text(), "IDは数字で指定してね");
    assert_eq!(Notice::ChannelUnknown.text(), "しらないチャンネルだよ");
    assert_eq!(Notice::Pong.text(), "pong");
    assert_eq!(Notice::Forgotten.text(), "1……2の……ポカン！");
    assert_eq!(Notice::Marked.text(), "エロガキ！！！！");
    assert_eq!(Notice::Unmarked.text(), "エロガキじゃないよ");
}
