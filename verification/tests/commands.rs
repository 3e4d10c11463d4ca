use udamanami::commands::{
    assignments_in, cclemon, channel, channel_list, channel_switched, erocheck, jail_main,
    unjail_main, var, var_main, varbulk, Assignment, ChannelAction, JailCall,
};
use udamanami::mention::{mention, resolve_mention};
use udamanami::notice::Notice;

fn args(items: &[&str]) -> Vec<String> {
    items.iter().map(|item| item.to_string()).collect()
}

fn assign(name: &str, expression: &str) -> Assignment {
    Assignment { name: name.to_string(), expression: expression.to_string() }
}

#[test]
fn mentions_resolve() {
    assert_eq!(resolve_mention("<@114941315417899012>"), Some(114941315417899012));
    assert_eq!(resolve_mention("<@!114941315417899012>"), Some(114941315417899012));
    assert_eq!(resolve_mention("<@18446744073709551615>"), Some(u64::MAX));
    assert_eq!(resolve_mention("<@1>"), Some(1));
    assert_eq!(resolve_mention("<@12"), Some(1));
    assert_eq!(resolve_mention("<@1149413154aa17899012"), None);
    assert_eq!(resolve_mention("<@!11494131541789a90b1c2"), None);
    assert_eq!(resolve_mention("<@18446744073709551616>"), None);
    assert_eq!(resolve_mention("<@0>"), None);
    assert_eq!(resolve_mention("<@>"), None);
    assert_eq!(resolve_mention("<@&5>"), None);
    assert_eq!(resolve_mention("<#5>"), None);
    assert_eq!(resolve_mention("bob"), None);
    assert_eq!(resolve_mention(""), None);
    assert_eq!(resolve_mention("<@12あ"), None);
    assert_eq!(resolve_mention("<@１>"), None);
    assert_eq!(resolve_mention("あ<@1>"), None);
}

#[test]
fn mentions_are_written() {
    assert_eq!(mention(114941315417899012), "<@114941315417899012>");
    assert_eq!(mention(0), "<@0>");
    assert_eq!(mention(10), "<@10>");
    assert_eq!(mention(u64::MAX), "<@18446744073709551615>");
    assert_eq!(resolve_mention(&mention(907)), Some(907));
}

#[test]
fn jail_arguments_are_read() {
    assert_eq!(jail_main(&args(&[])), Err(Notice::JailUsage));
    assert_eq!(jail_main(&args(&["bob"])), Err(Notice::Who));
    assert_eq!(jail_main(&args(&["bob", "10"])), Err(Notice::Who));
    assert_eq!(jail_main(&args(&["<@5>"])), Ok(JailCall { subject: 5, expression: None }));
    assert_eq!(
        jail_main(&args(&["<@5>", "10"])),
        Ok(JailCall { subject: 5, expression: Some("10".to_string()) })
    );
    assert_eq!(
        jail_main(&args(&["<@!5>", "10", "+", "x*2"])),
        Ok(JailCall { subject: 5, expression: Some("10 + x*2".to_string()) })
    );
}

#[test]
fn single_mentions_are_read() {
    assert_eq!(unjail_main(&args(&["<@5>"])), Ok(5));
    assert_eq!(unjail_main(&args(&[])), Err(Notice::UnjailUsage));
    assert_eq!(unjail_main(&args(&["<@5>", "<@6>"])), Err(Notice::UnjailUsage));
    assert_eq!(unjail_main(&args(&["five"])), Err(Notice::Who));
    assert_eq!(cclemon(&args(&["<@9>"])), Ok(9));
    assert_eq!(cclemon(&args(&[])), Err(Notice::CcLemonUsage));
    assert_eq!(cclemon(&args(&["<@9>", "x"])), Err(Notice::CcLemonUsage));
    assert_eq!(cclemon(&args(&["nine"])), Err(Notice::MentionOpponent));
}

#[test]
fn channel_arguments_are_read() {
    assert_eq!(channel(&args(&[]), 5), ChannelAction::List);
    assert_eq!(channel(&args(&["0"]), 5), ChannelAction::Switch(0));
    assert_eq!(channel(&args(&["4", "x"]), 5), ChannelAction::Switch(4));
    assert_eq!(channel(&args(&["+1"]), 5), ChannelAction::Switch(1));
    assert_eq!(channel(&args(&["5"]), 5), ChannelAction::Reply(Notice::ChannelUnknown));
    assert_eq!(channel(&args(&["0"]), 0), ChannelAction::Reply(Notice::ChannelUnknown));
    assert_eq!(channel(&args(&["x"]), 5), ChannelAction::Reply(Notice::ChannelNotNumber));
    assert_eq!(channel(&args(&["-1"]), 5), ChannelAction::Reply(Notice::ChannelNotNumber));
    assert_eq!(channel(&args(&["1.0"]), 5), ChannelAction::Reply(Notice::ChannelNotNumber));
    assert_eq!(
        channel(&args(&["99999999999999999999999"]), 5),
        ChannelAction::Reply(Notice::ChannelNotNumber)
    );
}

#[test]
fn channels_are_listed() {
    assert_eq!(
        channel_list(123, &args(&["general", "雑談"])),
        "今は<#123>で代筆してるよ\n```チャンネル一覧だよ\n 0\tgeneral\n 1\t雑談\n```使い方: `!channel <ID>`"
    );
    assert_eq!(
        channel_list(5, &args(&[])),
        "今は<#5>で代筆してるよ\n```チャンネル一覧だよ\n```使い方: `!channel <ID>`"
    );
    let many = channel_list(5, &args(&["x"; 11]));
    assert!(many.contains("\n 9\tx\n10\tx\n```"));
    assert_eq!(channel_switched(77), "送信先を<#77>に設定したよ");
}

#[test]
fn assignments_are_read() {
    assert_eq!(var("x = 1 + 2"), assign("x", " 1 + 2"));
    assert_eq!(var("1+1"), assign("_", "1+1"));
    assert_eq!(var(""), assign("_", ""));
    assert_eq!(var("a=b=c"), assign("a", "b=c"));
    assert_eq!(var("  long name\t= 7"), assign("long name", " 7"));
    assert_eq!(var("=1"), assign("", "1"));
    assert_eq!(var(" \u{3000} ="), assign("", ""));
    assert_eq!(var("x=="), assign("x", "="));
    assert_eq!(udamanami::commands::calc("1 + 1"), assign("_", "1 + 1"));
}

#[test]
fn bulk_assignments_are_read() {
    assert_eq!(
        assignments_in("a=1; b = 2 ;;  ;c"),
        vec![assign("a", "1"), assign("b", " 2 "), assign("_", "c")]
    );
    assert_eq!(assignments_in(""), Vec::<Assignment>::new());
    assert_eq!(assignments_in(" ; "), Vec::<Assignment>::new());
    assert_eq!(varbulk("```;a=1;b = 2```"), vec![assign("a", "1"), assign("b", " 2")]);
    assert_eq!(varbulk("```a=1```"), vec![assign("", "1")]);
    assert_eq!(varbulk("a=1;b=2"), Vec::<Assignment>::new());
}

#[test]
fn evaluations_are_answered() {
    assert_eq!(var_main(&Ok("42".to_string())), "42");
    assert_eq!(var_main(&Err("division by zero".to_string())), "division by zero ……だってさ。");
}

#[test]
fn roles_are_checked() {
    assert_eq!(erocheck(&vec![1, 2, 3], 2), Notice::Marked);
    assert_eq!(erocheck(&vec![1, 2, 3], 4), Notice::Unmarked);
    assert_eq!(erocheck(&vec![], 4), Notice::Unmarked);
}
