//! The two patterns that the bot looks for in a message.

use vstd::prelude::*;
use regex::Regex;

verus! {

/// What the regex crate makes of a pattern, a text and the index of a
/// capture group: `None` where the pattern does not compile; otherwise the
/// text of the group in the leftmost match, if the pattern matches and the
/// group took part in the match.
pub uninterp spec fn captured_group(pattern: Seq<char>, text: Seq<char>, group: nat) -> Option<
    Option<Seq<char>>,
>;

/// `Regex::new`, then `Regex::captures` and `Captures::get` of the regex
/// crate: the answer is a function of the pattern, the text and the index.
/// A pattern that does not compile is told apart from one that does not
/// match.
#[verifier::external_body]
fn capture(pattern: &str, text: &str, group: usize) -> (found: Option<Option<String>>)
    ensures
        found is None ==> captured_group(pattern@, text@, group as nat) is None,
        found matches Some(None) ==> captured_group(pattern@, text@, group as nat) == Some(
            None::<Seq<char>>,
        ),
        found matches Some(Some(part)) ==> captured_group(pattern@, text@, group as nat) == Some(
            Some(part@),
        ),
{
    match Regex::new(pattern) {
        Ok(regex) => Some(
            regex.captures(text).and_then(|found| found.get(group)).map(
                |part| part.as_str().to_owned(),
            ),
        ),
        Err(_) => None,
    }
}

/// The pattern of a message for the bot: its name, with or without a
/// particle, or `!`, and then the command in the second group.
pub open spec fn command_pattern() -> Seq<char> {
    "(?ms)((?:まなみ(?:ちゃん)?(?:\\s|、|は|って|の)?)|!)(.*)"@
}

/// The pattern of a code block, with the code in the first group.
pub open spec fn code_pattern() -> Seq<char> {
    "```[a-zA-Z0-9]*(.*)```"@
}

/// The text of a group, where the pattern compiles and the group is
/// found.
pub open spec fn group_found(pattern: Seq<char>, text: Seq<char>, group: nat) -> Option<Seq<char>> {
    match captured_group(pattern, text, group) {
        Some(found) => found,
        None => None,
    }
}

/// What a message says to the bot: the text after the first mention of
/// its name or `!`.
pub open spec fn command_in(content: Seq<char>) -> Option<Seq<char>> {
    group_found(command_pattern(), content, 2)
}

/// The code of the first code block.
pub open spec fn code_in(input: Seq<char>) -> Option<Seq<char>> {
    group_found(code_pattern(), input, 1)
}

/// The text of a group of the leftmost match of a pattern; none where
/// the pattern does not match or does not compile.
fn find_group(pattern: &str, text: &str, group: usize) -> (found: Option<String>)
    ensures
        found matches Some(part) ==> group_found(pattern@, text@, group as nat) == Some(part@),
        found is None ==> group_found(pattern@, text@, group as nat) is None,
{
    match capture(pattern, text, group) {
        Some(found) => found,
        None => None,
    }
}

/// The command that a message holds for the bot, if it holds one.
pub fn command_input(content: &str) -> (input: Option<String>)
    ensures
        input matches Some(text) ==> command_in(content@) == Some(text@),
        input is None ==> command_in(content@) is None,
{
    find_group("(?ms)((?:まなみ(?:ちゃん)?(?:\\s|、|は|って|の)?)|!)(.*)", content, 2)
}

/// The code of the first code block of a text, if there is one on a line.
pub fn code_block(input: &str) -> (code: Option<String>)
    ensures
        code matches Some(text) ==> code_in(input@) == Some(text@),
        code is None ==> code_in(input@) is None,
{
    find_group("```[a-zA-Z0-9]*(.*)```", input, 1)
}

} // verus!
