//! Cutting a text into words and pieces, and putting pieces together.

use vstd::prelude::*;
use vstd::string::*;
use crate::text::{chars_of, push_char};

verus! {

/// Whether a character beyond ASCII is white space, as the standard
/// library has it.
pub uninterp spec fn is_wide_white_space(c: char) -> bool;

/// Whether a character is white space. In ASCII these are the tab, the
/// line feed, the vertical tab, the form feed, the carriage return and the
/// space; beyond ASCII the standard library decides.
pub open spec fn is_white_space(c: char) -> bool {
    if c <= '\u{7f}' {
        '\u{9}' <= c <= '\u{d}' || c == ' '
    } else {
        is_wide_white_space(c)
    }
}

/// `char::is_whitespace`: whether the character has the Unicode property
/// White_Space. In ASCII exactly the characters from U+0009 to U+000D and
/// the space have it; beyond, the answer depends on the character alone.
#[verifier::external_body]
fn is_whitespace(c: char) -> (white: bool)
    ensures
        white == if c <= '\u{7f}' {
            '\u{9}' <= c <= '\u{d}' || c == ' '
        } else {
            is_wide_white_space(c)
        },
{
    c.is_whitespace()
}

/// The index of the first character from `from` on that is no white
/// space, or the length.
pub open spec fn space_end(text: Seq<char>, from: int) -> int
    decreases text.len() - from,
{
    if 0 <= from < text.len() && is_white_space(text[from]) {
        space_end(text, from + 1)
    } else {
        from
    }
}

/// The index of the first character from `from` on that is white space,
/// or the length.
pub open spec fn word_end(text: Seq<char>, from: int) -> int
    decreases text.len() - from,
{
    if 0 <= from < text.len() && !is_white_space(text[from]) {
        word_end(text, from + 1)
    } else {
        from
    }
}

/// The words of a text from `from` on: the longest runs of characters
/// that are no white space, in order.
pub open spec fn words_from(text: Seq<char>, from: int) -> Seq<Seq<char>>
    decreases text.len() - from,
{
    let start = space_end(text, from);
    let end = word_end(text, start);
    if from <= start < end <= text.len() {
        seq![text.subrange(start, end)] + words_from(text, end)
    } else {
        Seq::empty()
    }
}

/// The words of a text.
pub open spec fn words_of(text: Seq<char>) -> Seq<Seq<char>> {
    words_from(text, 0)
}

/// The texts of a sequence of strings.
pub open spec fn texts(strings: Seq<String>) -> Seq<Seq<char>> {
    strings.map_values(|s: String| s@)
}

/// The texts of a sequence of string slices.
pub open spec fn slices(strings: Seq<&str>) -> Seq<Seq<char>> {
    strings.map_values(|s: &str| s@)
}

/// The index of the last character before `to` that is no white space,
/// plus one; 0 if there is none.
pub open spec fn trimmed_end(text: Seq<char>, to: int) -> int
    decreases to,
{
    if 0 < to <= text.len() && is_white_space(text[to - 1]) {
        trimmed_end(text, to - 1)
    } else {
        to
    }
}

/// A text without the white space at its two ends.
pub open spec fn trimmed(text: Seq<char>) -> Seq<char> {
    let start = space_end(text, 0);
    let end = trimmed_end(text, text.len() as int);
    if start < end {
        text.subrange(start, end)
    } else {
        Seq::empty()
    }
}

/// A text that holds nothing but white space.
pub open spec fn is_blank(text: Seq<char>) -> bool {
    space_end(text, 0) >= text.len()
}

/// The pieces with `separator` between each two of them.
pub open spec fn joined_with(pieces: Seq<Seq<char>>, separator: Seq<char>) -> Seq<char>
    decreases pieces.len(),
{
    if pieces.len() == 0 {
        Seq::empty()
    } else if pieces.len() == 1 {
        pieces[0]
    } else {
        joined_with(pieces.drop_last(), separator) + separator + pieces.last()
    }
}

/// The index of the first `separator` from `from` on, or the length.
pub open spec fn piece_end(text: Seq<char>, from: int, separator: char) -> int
    decreases text.len() - from,
{
    if 0 <= from < text.len() && text[from] != separator {
        piece_end(text, from + 1, separator)
    } else {
        from
    }
}

/// The pieces of a text from `from` on that `separator` parts: one more
/// than there are separators, empty pieces included.
pub open spec fn pieces_from(text: Seq<char>, from: int, separator: char) -> Seq<Seq<char>>
    decreases text.len() - from,
{
    let end = piece_end(text, from, separator);
    if from <= end < text.len() {
        seq![text.subrange(from, end)] + pieces_from(text, end + 1, separator)
    } else {
        seq![text.subrange(from, text.len() as int)]
    }
}

/// The index of the first character from `from` on that is no white space.
fn skip_space(text: &Vec<char>, from: usize) -> (end: usize)
    requires
        from <= text.len(),
    ensures
        end == space_end(text@, from as int),
        from <= end <= text.len(),
{
    let mut end: usize = from;
    while end < text.len() && is_whitespace(text[end])
        invariant
            from <= end <= text.len(),
            space_end(text@, end as int) == space_end(text@, from as int),
        decreases text.len() - end,
    {
        end = end + 1;
    }
    end
}

/// The index of the first character from `from` on that is white space.
fn skip_word(text: &Vec<char>, from: usize) -> (end: usize)
    requires
        from <= text.len(),
    ensures
        end == word_end(text@, from as int),
        from <= end <= text.len(),
{
    let mut end: usize = from;
    while end < text.len() && !is_whitespace(text[end])
        invariant
            from <= end <= text.len(),
            word_end(text@, end as int) == word_end(text@, from as int),
        decreases text.len() - end,
    {
        end = end + 1;
    }
    end
}

/// The index of the first `separator` from `from` on.
fn skip_piece(text: &Vec<char>, from: usize, separator: char) -> (end: usize)
    requires
        from <= text.len(),
    ensures
        end == piece_end(text@, from as int, separator),
        from <= end <= text.len(),
{
    let mut end: usize = from;
    while end < text.len() && text[end] != separator
        invariant
            from <= end <= text.len(),
            piece_end(text@, end as int, separator) == piece_end(text@, from as int, separator),
        decreases text.len() - end,
    {
        end = end + 1;
    }
    end
}

/// The characters between `from` and `to` as a string.
pub fn slice_of(text: &Vec<char>, from: usize, to: usize) -> (piece: String)
    requires
        from <= to <= text.len(),
    ensures
        piece@ == text@.subrange(from as int, to as int),
{
    let mut piece = String::new();
    let mut i: usize = from;
    while i < to
        invariant
            from <= i <= to <= text.len(),
            piece@ == text@.subrange(from as int, i as int),
        decreases to - i,
    {
        push_char(&mut piece, text[i]);
        assert(piece@ =~= text@.subrange(from as int, i + 1));
        i = i + 1;
    }
    piece
}

/// The words of a text: what stands between white space.
pub fn split_words(text: &str) -> (words: Vec<String>)
    ensures
        texts(words@) == words_of(text@),
{
    let chars = chars_of(text);
    let mut words: Vec<String> = Vec::new();
    let mut position: usize = 0;
    assert(texts(words@) + words_from(chars@, 0) =~= words_of(text@));
    loop
        invariant
            position <= chars.len(),
            chars@ == text@,
            texts(words@) + words_from(chars@, position as int) == words_of(text@),
        decreases chars.len() - position,
    {
        let start = skip_space(&chars, position);
        let end = skip_word(&chars, start);
        if start >= end {
            assert(texts(words@) =~= words_of(text@));
            return words;
        }
        let ghost before = words@;
        words.push(slice_of(&chars, start, end));
        assert(texts(words@) =~= texts(before) + seq![chars@.subrange(start as int, end as int)]);
        assert(texts(words@) + words_from(chars@, end as int) =~= texts(before) + words_from(
            chars@,
            position as int,
        ));
        position = end;
    }
}

/// The pieces of a text that `separator` parts, empty ones included.
pub fn split_at_char(text: &str, separator: char) -> (pieces: Vec<String>)
    ensures
        texts(pieces@) == pieces_from(text@, 0, separator),
{
    let chars = chars_of(text);
    let mut pieces: Vec<String> = Vec::new();
    let mut position: usize = 0;
    assert(texts(pieces@) + pieces_from(chars@, 0, separator) =~= pieces_from(text@, 0, separator));
    loop
        invariant
            position <= chars.len(),
            chars@ == text@,
            texts(pieces@) + pieces_from(chars@, position as int, separator) == pieces_from(
                text@,
                0,
                separator,
            ),
        decreases chars.len() - position,
    {
        let end = skip_piece(&chars, position, separator);
        let ghost before = pieces@;
        if end >= chars.len() {
            pieces.push(slice_of(&chars, position, chars.len()));
            assert(texts(pieces@) =~= texts(before) + pieces_from(
                chars@,
                position as int,
                separator,
            ));
            return pieces;
        }
        pieces.push(slice_of(&chars, position, end));
        assert(texts(pieces@) =~= texts(before) + seq![
            chars@.subrange(position as int, end as int),
        ]);
        assert(texts(pieces@) + pieces_from(chars@, end + 1, separator) =~= texts(before)
            + pieces_from(chars@, position as int, separator));
        position = end + 1;
    }
}

/// The text without the white space at its two ends.
pub fn trim(text: &str) -> (inner: String)
    ensures
        inner@ == trimmed(text@),
{
    let chars = chars_of(text);
    let start = skip_space(&chars, 0);
    let mut end: usize = chars.len();
    while end > 0 && is_whitespace(chars[end - 1])
        invariant
            end <= chars.len(),
            trimmed_end(chars@, end as int) == trimmed_end(chars@, chars@.len() as int),
        decreases end,
    {
        end = end - 1;
    }
    if start < end {
        slice_of(&chars, start, end)
    } else {
        String::new()
    }
}

/// Whether the text holds nothing but white space.
pub fn blank(text: &str) -> (nothing: bool)
    ensures
        nothing == is_blank(text@),
{
    let chars = chars_of(text);
    skip_space(&chars, 0) >= chars.len()
}

/// The pieces from index `from` on, with `separator` between each two.
pub fn join_from(pieces: &Vec<String>, from: usize, separator: &str) -> (text: String)
    requires
        from <= pieces.len(),
    ensures
        text@ == joined_with(texts(pieces@).skip(from as int), separator@),
{
    let mut text = String::new();
    let mut i: usize = from;
    let ghost all = texts(pieces@).skip(from as int);
    assert(all.take(0) =~= Seq::<Seq<char>>::empty());
    while i < pieces.len()
        invariant
            from <= i <= pieces.len(),
            all == texts(pieces@).skip(from as int),
            text@ == joined_with(all.take(i - from), separator@),
        decreases pieces.len() - i,
    {
        assert(all.take(i - from + 1).drop_last() =~= all.take(i - from));
        assert(all.take(i - from + 1).last() == pieces@[i as int]@);
        if i > from {
            text.append(separator);
        }
        text.append(pieces[i].as_str());
        assert(text@ =~= joined_with(all.take(i - from + 1), separator@));
        i = i + 1;
    }
    assert(all.take(i - from) =~= all);
    text
}

} // verus!
