//! The fixed texts that the bot answers with.

use vstd::prelude::*;

verus! {

/// An answer whose text is fixed.
#[derive(Clone, Copy, Debug, PartialEq, Eq, Structural)]
pub enum Notice {
    /// How `jail` is called.
    JailUsage,
    /// How `unjail` is called.
    UnjailUsage,
    /// How `cclemon` is called.
    CcLemonUsage,
    /// How `isprime` is called.
    IsPrimeUsage,
    /// The subject of a command is no mention.
    Who,
    /// The opponent of a game is no mention.
    MentionOpponent,
    /// A number of a dice notation is out of range.
    BadNumber,
    /// The message names no command.
    UnknownCommand,
    /// A slash command that nobody registered.
    UnknownSlashCommand,
    /// The argument of `isprime` is no number.
    NotANumber,
    /// The argument of `channel` is no number.
    ChannelNotNumber,
    /// The argument of `channel` is no index of a channel.
    ChannelUnknown,
    /// The answer to `ping`.
    Pong,
    /// The log of the channel has been cleared.
    Forgotten,
    /// The member carries the role that `erocheck` looks for.
    Marked,
    /// The member does not carry it.
    Unmarked,
}

/// The text of a notice.
pub open spec fn notice_text(notice: Notice) -> Seq<char> {
    match notice {
        Notice::JailUsage => "使い方: `!jail <user> [刑期（秒）]`"@,
        Notice::UnjailUsage => "使い方: `!unjail <user>`"@,
        Notice::CcLemonUsage => "使い方: `!cclemon <相手>`"@,
        Notice::IsPrimeUsage => "使い方: `!isprime <number>`"@,
        Notice::Who => "誰？"@,
        Notice::MentionOpponent => "相手をメンションで指定してね"@,
        Notice::BadNumber => "数字がおかしいよ"@,
        Notice::UnknownCommand => "しらないコマンドだよ"@,
        Notice::UnknownSlashCommand => "知らないコマンドだよ！"@,
        Notice::NotANumber => "わかんないよ"@,
        Notice::ChannelNotNumber => "IDは数字で指定してね"@,
        Notice::ChannelUnknown => "しらないチャンネルだよ"@,
        Notice::Pong => "pong"@,
        Notice::Forgotten => "1……2の……ポカン！"@,
        Notice::Marked => "エロガキ！！！！"@,
        Notice::Unmarked => "エロガキじゃないよ"@,
    }
}

impl Notice {
    /// The text of the notice.
    pub fn text(&self) -> (text: String)
        ensures
            text@ == notice_text(*self),
    {
        match self {
            Notice::JailUsage => "使い方: `!jail <user> [刑期（秒）]`".to_owned(),
            Notice::UnjailUsage => "使い方: `!unjail <user>`".to_owned(),
            Notice::CcLemonUsage => "使い方: `!cclemon <相手>`".to_owned(),
            Notice::IsPrimeUsage => "使い方: `!isprime <number>`".to_owned(),
            Notice::Who => "誰？".to_owned(),
            Notice::MentionOpponent => "相手をメンションで指定してね".to_owned(),
            Notice::BadNumber => "数字がおかしいよ".to_owned(),
            Notice::UnknownCommand => "しらないコマンドだよ".to_owned(),
            Notice::UnknownSlashCommand => "知らないコマンドだよ！".to_owned(),
            Notice::NotANumber => "わかんないよ".to_owned(),
            Notice::ChannelNotNumber => "IDは数字で指定してね".to_owned(),
            Notice::ChannelUnknown => "しらないチャンネルだよ".to_owned(),
            Notice::Pong => "pong".to_owned(),
            Notice::Forgotten => "1……2の……ポカン！".to_owned(),
            Notice::Marked => "エロガキ！！！！".to_owned(),
            Notice::Unmarked => "エロガキじゃないよ".to_owned(),
        }
    }
}

} // verus!
