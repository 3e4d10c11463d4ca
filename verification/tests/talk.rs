use udamanami::ai::{
    first_content, remove_all, request_messages, spoken, ChatLog, ChatMessage, Query, Role,
    MANAMI_PROMPT, MODEL,
};
use udamanami::counter::GenerationCounter;
use udamanami::help::{greeting, greeting_list, help, ABOUT_DM, ABOUT_GUILD};
use udamanami::text::{chars_of, parse_signed, parse_unsigned, same_text, string_of};
use udamanami::words::{blank, join_from, split_at_char, split_words, trim};

#[test]
fn queries_hold_speaker_and_line() {
    let query = Query::from_message("uda", "まなみ、おはよう！　今日は何をする予定？");
    assert_eq!(query.user(), "uda");
    assert_eq!(query.message(), "まなみ、おはよう！　今日は何をする予定？");
    let first = Query::initial_context();
    assert_eq!(first.user(), "system");
    assert_eq!(first.message(), MANAMI_PROMPT);
    assert!(MANAMI_PROMPT.starts_with("あなたはあなたの参加しているDiscordサーバーの管理者である"));
    assert!(MANAMI_PROMPT.ends_with("発言者を示す接頭辞は必要ありません。"));
    assert_eq!(MANAMI_PROMPT.lines().count(), 22);
    assert_eq!(MODEL, "gpt-4o-mini");
}

#[test]
fn queries_become_messages() {
    assert_eq!(
        Query::from_message("uda", "おはよう").to_gpt_message(),
        ChatMessage {
            role: Role::User,
            name: "user".to_string(),
            content: "uda: おはよう".to_string()
        }
    );
    assert_eq!(
        Query::from_message("うだまなみ", "おはよう！").to_gpt_message(),
        ChatMessage {
            role: Role::Assistant,
            name: "model".to_string(),
            content: "うだまなみ: おはよう！".to_string()
        }
    );
    assert_eq!(Query::initial_context().to_gpt_message().role, Role::User);
}

#[test]
fn requests_begin_with_the_instructions() {
    let talk = vec![Query::from_message("a", "1"), Query::from_message("うだまなみ", "2")];
    let messages = request_messages(&talk);
    assert_eq!(messages.len(), 3);
    assert_eq!(messages[0], Query::initial_context().to_gpt_message());
    assert_eq!(messages[0].content, format!("system: {}", MANAMI_PROMPT));
    assert_eq!(messages[1].content, "a: 1");
    assert_eq!(messages[2].role, Role::Assistant);
    assert_eq!(request_messages(&Vec::new()).len(), 1);
}

#[test]
fn answers_are_taken_from_the_first_choice() {
    assert_eq!(
        first_content(&vec![Some("yes".to_string()), Some("no".to_string())]),
        Ok("yes".to_string())
    );
    assert_eq!(
        first_content(&vec![None, Some("no".to_string())]),
        Err("No content found".to_string())
    );
    assert_eq!(first_content(&Vec::new()), Err("No content found".to_string()));
}

#[test]
fn own_marks_are_removed() {
    assert_eq!(spoken("うだまなみ: おはよう！"), "おはよう！");
    assert_eq!(spoken("うだまなみ: a\nうだまなみ: b"), "a\nb");
    assert_eq!(spoken("うだまなみ:x"), "うだまなみ:x");
    assert_eq!(spoken(""), "");
    assert_eq!(remove_all("aaa", "aa"), "a");
    assert_eq!(remove_all("abcabc", "bc"), "aa");
    assert_eq!(remove_all("ababa", "aba"), "ba");
    assert_eq!(remove_all("abc", ""), "abc");
    assert_eq!(remove_all("abc", "abcd"), "abc");
    assert_eq!(remove_all("abc", "abc"), "");
}

#[test]
fn chat_log_keeps_the_last_lines() {
    let mut log = ChatLog::new();
    assert_eq!(log.len(), 0);
    for i in 0..101 {
        log.record("a", &i.to_string());
    }
    assert_eq!(log.len(), 101);
    assert_eq!(log.queries()[0].message(), "0");
    log.record("b", "101");
    assert_eq!(log.len(), 101);
    let talk = log.queries();
    assert_eq!(talk[0].message(), "1");
    assert_eq!(talk[100], Query::from_message("b", "101"));
    log.clear();
    assert_eq!(log.len(), 0);
    assert!(log.queries().is_empty());
}

#[test]
fn help_shows_direct_commands_to_members() {
    let member = help(true);
    let stranger = help(false);
    assert!(member.starts_with("# まなみの自己紹介だよ！\n## 代筆機能があるよ！\n"));
    assert!(member.contains(ABOUT_DM));
    assert!(!stranger.contains(ABOUT_DM));
    assert!(member.ends_with(ABOUT_GUILD));
    assert!(stranger.ends_with(ABOUT_GUILD));
    assert_eq!(member.len(), stranger.len() + ABOUT_DM.len());
    assert!(ABOUT_GUILD.contains("!jail <user> [sec]"));
    assert!(ABOUT_DM.starts_with("## まなみはDMでコマンドを受け付けるよ！\n```\n!channel "));
}

#[test]
fn greetings_come_from_the_list() {
    let list = greeting_list();
    assert_eq!(list.len(), 10);
    assert_eq!(list[0], "おはようっ！");
    assert_eq!(list[9], "まなみは元気ですっ！");
    for _ in 0..50 {
        assert!(list.contains(&greeting()));
    }
}

#[test]
fn counter_issues_in_order() {
    let mut counter = GenerationCounter::new();
    assert_eq!(counter.last_issued(), 0);
    assert_eq!(counter.issue(), Some(1));
    assert_eq!(counter.issue(), Some(2));
    assert_eq!(counter.issue(), Some(3));
    assert_eq!(counter.last_issued(), 3);
}

#[test]
fn texts_are_taken_apart() {
    assert_eq!(chars_of("aあ!"), vec!['a', 'あ', '!']);
    assert_eq!(string_of(&vec!['a', 'あ', '!']), "aあ!");
    assert!(same_text("あ", "あ"));
    assert!(!same_text("あ", "ああ"));
    assert_eq!(split_words("  a\tbb\n c\u{3000}d "), vec!["a", "bb", "c", "d"]);
    assert_eq!(split_words(" \n"), Vec::<String>::new());
    assert_eq!(split_at_char("a=b==c", '='), vec!["a", "b", "", "c"]);
    assert_eq!(split_at_char("", '='), vec![""]);
    assert_eq!(split_at_char("=", '='), vec!["", ""]);
    assert_eq!(trim(" \u{3000}a b\n"), "a b");
    assert_eq!(trim(" \n"), "");
    assert!(blank(" \t\u{3000}"));
    assert!(blank(""));
    assert!(!blank(" a "));
    let pieces = vec!["a".to_string(), "b".to_string(), "c".to_string()];
    assert_eq!(join_from(&pieces, 0, ", "), "a, b, c");
    assert_eq!(join_from(&pieces, 1, "="), "b=c");
    assert_eq!(join_from(&pieces, 2, "="), "c");
    assert_eq!(join_from(&pieces, 3, "="), "");
}

#[test]
fn numerals_are_read() {
    assert_eq!(parse_unsigned("0", 10), Some(0));
    assert_eq!(parse_unsigned("10", 10), Some(10));
    assert_eq!(parse_unsigned("11", 10), None);
    assert_eq!(parse_unsigned("+10", 10), Some(10));
    assert_eq!(parse_unsigned("0000000000000000000000000000000000000000007", 10), Some(7));
    assert_eq!(
        parse_unsigned("340282366920938463463374607431768211455", u128::MAX),
        Some(u128::MAX)
    );
    assert_eq!(parse_unsigned("340282366920938463463374607431768211456", u128::MAX), None);
    assert_eq!(parse_unsigned("999999999999999999999999999999999999999999", u128::MAX), None);
    assert_eq!(parse_unsigned("", 10), None);
    assert_eq!(parse_unsigned("+", 10), None);
    assert_eq!(parse_unsigned("++1", 10), None);
    assert_eq!(parse_unsigned("-1", 10), None);
    assert_eq!(parse_unsigned("1a", 10), None);
    assert_eq!(parse_unsigned("１", 10), None);
}

#[test]
fn signed_numerals_are_read() {
    assert_eq!(parse_signed("0"), Some(0));
    assert_eq!(parse_signed("-0"), Some(0));
    assert_eq!(parse_signed("+15"), Some(15));
    assert_eq!(parse_signed("-5"), Some(-5));
    assert_eq!(parse_signed("9223372036854775807"), Some(i64::MAX));
    assert_eq!(parse_signed("9223372036854775808"), None);
    assert_eq!(parse_signed("-9223372036854775808"), Some(i64::MIN));
    assert_eq!(parse_signed("-9223372036854775809"), None);
    assert_eq!(parse_signed("-"), None);
    assert_eq!(parse_signed("+-1"), None);
    assert_eq!(parse_signed("--1"), None);
    assert_eq!(parse_signed("1 "), None);
    assert_eq!(parse_signed(""), None);
}
