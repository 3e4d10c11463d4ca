//! Mentions: how a subject is written in a message, and read from one.

use vstd::prelude::*;
use vstd::string::*;
use vstd::utf8::is_ascii_chars;
use crate::text::{
    decimal, is_digit, lemma_decimal_denotes, lemma_numeral_is_read_back, push_decimal,
    unsigned_value,
};

verus! {

/// The id that a numeral denotes: an unsigned decimal numeral of 64 bits
/// that is not 0.
pub open spec fn id_value(numeral: Seq<char>) -> Option<u64> {
    match unsigned_value(numeral, u64::MAX as nat) {
        Some(value) => if value == 0 {
            None
        } else {
            Some(value as u64)
        },
        None => None,
    }
}

/// The subject that a text of ASCII characters mentions, as serenity
/// reads it: after `<@` or `<@!` stands the numeral of the id, and after
/// that one last character, which is not looked at.
pub open spec fn mention_target(text: Seq<char>) -> Option<u64> {
    if text.len() < 4 || text[0] != '<' || text[1] != '@' {
        None
    } else if text[2] == '!' {
        id_value(text.subrange(3, text.len() - 1))
    } else {
        id_value(text.subrange(2, text.len() - 1))
    }
}

/// serenity's `utils::parse_user_mention`, with the id as a plain integer.
/// The function wants four bytes or more and one of the two prefixes,
/// cuts off the prefix and the last byte, and reads what is left as a
/// non-zero 64-bit numeral, as `str::parse` reads one. Texts outside
/// ASCII are left out, since the last byte is cut off unseen.
#[verifier::external_body]
fn parse_ascii_mention(text: &str) -> (subject: Option<u64>)
    requires
        is_ascii(text),
    ensures
        subject == mention_target(text@),
{
    serenity::utils::parse_user_mention(text).map(|id| id.get())
}

/// What `resolve_mention` makes of a text.
pub open spec fn resolved_mention(text: Seq<char>) -> Option<u64> {
    if is_ascii_chars(text) {
        mention_target(text)
    } else {
        None
    }
}

/// The subject that `text` mentions, if it is a mention. No text with a
/// character outside ASCII is one, and no mention names the id 0.
pub fn resolve_mention(text: &str) -> (subject: Option<u64>)
    ensures
        subject == resolved_mention(text@),
        subject != Some(0u64),
{
    if text.is_ascii() {
        parse_ascii_mention(text)
    } else {
        None
    }
}

/// The mention of a subject: its id between `<@` and `>`.
pub open spec fn mention_text(subject: u64) -> Seq<char> {
    "<@"@ + decimal(subject as nat) + ">"@
}

/// Appends the mention of `subject` to `text`.
pub fn push_mention(text: &mut String, subject: u64)
    ensures
        final(text)@ == old(text)@ + mention_text(subject),
{
    text.append("<@");
    push_decimal(text, subject as u128);
    text.append(">");
    assert(text@ =~= old(text)@ + mention_text(subject));
}

/// The mention of `subject` as a string.
pub fn mention(subject: u64) -> (text: String)
    ensures
        text@ == mention_text(subject),
{
    let mut text = String::new();
    push_mention(&mut text, subject);
    assert(text@ =~= mention_text(subject));
    text
}

/// The mention that is written for a subject is read as that subject,
/// unless its id is 0, which no mention names.
pub proof fn lemma_mention_is_resolved(subject: u64)
    requires
        subject != 0,
    ensures
        resolved_mention(mention_text(subject)) == Some(subject),
{
    reveal_strlit("<@");
    reveal_strlit(">");
    let numeral = decimal(subject as nat);
    let text = mention_text(subject);
    lemma_decimal_denotes(subject as nat);
    lemma_numeral_is_read_back(subject as nat, u64::MAX as nat);
    assert(text.len() == numeral.len() + 3);
    assert(text[0] == '<' && text[1] == '@');
    assert(text[2] == numeral[0] && is_digit(numeral[0]));
    assert(text.subrange(2, text.len() - 1) =~= numeral);
    assert forall|i: int| 0 <= i < text.len() implies '\0' <= #[trigger] text[i] <= '\u{7f}' by {
        if 2 <= i < text.len() - 1 {
            assert(text[i] == numeral[i - 2] && is_digit(numeral[i - 2]));
        }
    }
}

} // verus!
