use udamanami::bf::{
    fault_message, interpreter, parse_program, register, run, BrainfuckCommand, Fault, OptionValue,
};

fn eval(program: &str, input: &str) -> Result<String, String> {
    interpreter(parse_program(program), input)
}

fn text(value: &str) -> OptionValue {
    OptionValue::Text(value.to_string())
}

#[test]
fn characters_become_commands() {
    assert_eq!(
        parse_program("><+-.,[]x "),
        vec![
            BrainfuckCommand::MoveRight,
            BrainfuckCommand::MoveLeft,
            BrainfuckCommand::Increment,
            BrainfuckCommand::Decrement,
            BrainfuckCommand::Output,
            BrainfuckCommand::Input,
            BrainfuckCommand::LoopStart,
            BrainfuckCommand::LoopEnd,
            BrainfuckCommand::Invalid,
            BrainfuckCommand::Invalid,
        ]
    );
    assert_eq!(BrainfuckCommand::from('['), BrainfuckCommand::LoopStart);
    assert_eq!(BrainfuckCommand::from('あ'), BrainfuckCommand::Invalid);
    assert!(parse_program("").is_empty());
}

#[test]
fn hello_world_runs() {
    let program = "++++++++[>++++[>++>+++>+++>+<<<<-]>+>+>->>+[<]<-]>>.>---.+++++++..+++.>>.<-.<.+++.------.--------.>>+.>++.";
    assert_eq!(eval(program, ""), Ok("Hello World!\n".to_string()));
}

#[test]
fn cells_wrap_around() {
    assert_eq!(eval("-.", ""), Ok("\u{ff}".to_string()));
    assert_eq!(eval("-+.", ""), Ok("\u{0}".to_string()));
    assert_eq!(eval("+.", ""), Ok("\u{1}".to_string()));
}

#[test]
fn input_is_read_as_bytes() {
    assert_eq!(eval(",.,.,.", "ab"), Ok("ab\u{0}".to_string()));
    assert_eq!(eval(",.", "é"), Ok("é".to_string()));
    assert_eq!(eval(",.", "あ"), Ok("?".to_string()));
    assert_eq!(eval(",.", "\u{10041}"), Ok("A".to_string()));
    assert_eq!(eval(",.", "\u{100}"), Ok("?".to_string()));
    assert_eq!(eval(",.", "\u{ff}"), Ok("\u{ff}".to_string()));
    assert_eq!(eval("+,.", ""), Ok("\u{0}".to_string()));
}

#[test]
fn loops_repeat_and_skip() {
    assert_eq!(eval("+++[>++<-]>.", ""), Ok("\u{6}".to_string()));
    assert_eq!(eval("[+.]+.", ""), Ok("\u{1}".to_string()));
    assert_eq!(eval("[[+]+]+.", ""), Ok("\u{1}".to_string()));
    assert_eq!(eval(",[.,]", "xyz"), Ok("xyz".to_string()));
    assert_eq!(eval("]", ""), Ok(String::new()));
    assert_eq!(eval("+[", ""), Ok(String::new()));
}

#[test]
fn the_tape_has_1024_cells() {
    let last = format!("{}+.", ">".repeat(1023));
    assert_eq!(eval(&last, ""), Ok("\u{1}".to_string()));
    let beyond = format!("{}+", ">".repeat(1024));
    assert_eq!(eval(&beyond, ""), Err("メモリの外だよ！".to_string()));
    assert_eq!(eval(&">".repeat(1024), ""), Ok(String::new()));
    assert_eq!(eval("<+", ""), Err("メモリの外だよ！".to_string()));
    assert_eq!(eval("<.", ""), Err("メモリの外だよ！".to_string()));
    assert_eq!(eval("<,", ""), Err("メモリの外だよ！".to_string()));
    assert_eq!(eval("<[", ""), Err("メモリの外だよ！".to_string()));
    assert_eq!(eval("<]", ""), Err("メモリの外だよ！".to_string()));
    assert_eq!(eval("<-", ""), Err("メモリの外だよ！".to_string()));
    assert_eq!(eval("<>+.", ""), Ok("\u{1}".to_string()));
}

#[test]
fn unmatched_brackets_are_faults() {
    assert_eq!(eval("+]", ""), Err("] に対応する [ がないよ！".to_string()));
    assert_eq!(eval("[", ""), Err("[ に対応する ] がないよ！".to_string()));
    assert_eq!(eval("[+", ""), Err("[ に対応する ] がないよ！".to_string()));
    assert_eq!(eval("[[]", ""), Err("[ に対応する ] がないよ！".to_string()));
}

#[test]
fn skipped_loops_are_bounded() {
    let fits = format!("[{}]+.", "+".repeat(1023));
    assert_eq!(eval(&fits, ""), Ok("\u{1}".to_string()));
    let long = format!("[{}]+.", "+".repeat(1024));
    assert_eq!(eval(&long, ""), Err("ループが多すぎるよ！　無限ループじゃない？".to_string()));
    assert_eq!(eval(&"[".repeat(1025), ""), Err("ループが深すぎるよ！".to_string()));
    assert_eq!(eval(&"[".repeat(1024), ""), Err("[ に対応する ] がないよ！".to_string()));
}

#[test]
fn endless_programs_are_stopped() {
    assert_eq!(eval("+[]", ""), Err("時間がかかりすぎだよ！".to_string()));
    assert_eq!(eval("+[>+<]", ""), Err("時間がかかりすぎだよ！".to_string()));
    assert_eq!(eval("-[>-[>-[-]<-]<-]", ""), Err("時間がかかりすぎだよ！".to_string()));
}

#[test]
fn commands_that_go_on_cost_nothing() {
    assert_eq!(eval(&"+".repeat(1000001), "").map(|text| text.len()), Ok(0));
    assert_eq!(eval(&" ".repeat(3000000), ""), Ok(String::new()));
    let padded = format!("{},{}.{}", "x".repeat(1500000), "y".repeat(1500000), " ".repeat(9));
    assert_eq!(eval(&padded, "q"), eval(",.", "q"));
    let busy = format!("-[>-[{}-]<-]+.", "+-".repeat(10));
    assert_eq!(eval(&busy, ""), Ok("\u{1}".to_string()));
}

/// A program that goes back to the head of a loop one time less than the
/// product of the three counts.
fn three_loops(count: usize) -> String {
    let set = "+".repeat(count);
    format!("{set}[>{set}[>{set}[-]<-]<-]")
}

#[test]
fn a_million_jumps_are_allowed() {
    let under = format!("{}++[-]+.", three_loops(100));
    assert_eq!(eval(&under, ""), Ok("\u{1}".to_string()));
    let over = format!("{}+++[-]+.", three_loops(100));
    assert_eq!(eval(&over, ""), Err("時間がかかりすぎだよ！".to_string()));
}

#[test]
fn fault_messages() {
    assert_eq!(fault_message(Fault::LoopTooDeep), "ループが深すぎるよ！");
    assert_eq!(fault_message(Fault::LoopTooLong), "ループが多すぎるよ！　無限ループじゃない？");
    assert_eq!(fault_message(Fault::OffTape), "メモリの外だよ！");
    assert_eq!(fault_message(Fault::UnmatchedLoopStart), "[ に対応する ] がないよ！");
    assert_eq!(fault_message(Fault::UnmatchedLoopEnd), "] に対応する [ がないよ！");
    assert_eq!(fault_message(Fault::TooManyJumps), "時間がかかりすぎだよ！");
}

#[test]
fn bf_command_answers() {
    assert_eq!(run(&[text(",.,."), text("ok")]), "ok");
    assert_eq!(run(&[text("+++"), text("")]), "出力はなかったよ！");
    assert_eq!(run(&[text(",."), OptionValue::Other]), "\u{0}");
    assert_eq!(run(&[text("+++")]), "出力はなかったよ！");
    assert_eq!(run(&[text("+]"), text("")]), "エラーだよ！\n```] に対応する [ がないよ！```");
    assert_eq!(run(&[OptionValue::Other, text("x")]), "エラーだよ！");
    assert_eq!(run(&[]), "エラーだよ！");
}

#[test]
fn bf_command_is_declared() {
    let command = register();
    assert_eq!(command.name, "bf");
    assert_eq!(command.description, "Brainfuckを実行するよ");
    assert_eq!(command.options.len(), 2);
    assert_eq!(command.options[0].name, "code");
    assert_eq!(command.options[0].description, "Brainfuckのコード");
    assert!(command.options[0].required);
    assert_eq!(command.options[1].name, "input");
    assert_eq!(command.options[1].description, "入力する文字列");
    assert!(!command.options[1].required);
}
