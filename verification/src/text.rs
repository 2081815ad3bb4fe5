//! Strings as sequences of characters: conversions, capitalisation, joining.

use vstd::prelude::*;
use vstd::string::StringExecFns;

verus! {

/// `String::push` appends one character.
pub assume_specification[ String::push ](s: &mut String, c: char)
    ensures
        final(s)@ == old(s)@.push(c),
;

/// The characters of `text`, in order.
pub fn chars_of(text: &str) -> (r: Vec<char>)
    ensures
        r@ == text@,
{
    broadcast use vstd::string::group_string_axioms;

    let mut out: Vec<char> = Vec::new();
    let chars = text.chars();
    for c in it: chars
        invariant
            it.seq() == text@,
            out@ == it.seq().take(it.index()),
    {
        out.push(c);
    }
    out
}

/// The string made of `chars[from..to]`.
pub fn string_of(chars: &Vec<char>, from: usize, to: usize) -> (r: String)
    requires
        from <= to <= chars.len(),
    ensures
        r@ == chars@.subrange(from as int, to as int),
{
    let mut out = String::new();
    let mut i: usize = from;
    while i < to
        invariant
            from <= i <= to <= chars.len(),
            out@ == chars@.subrange(from as int, i as int),
        decreases to - i,
    {
        out.push(chars[i]);
        i += 1;
    }
    out
}

/// The upper-case form of an ASCII lower-case letter; any other character
/// is left alone.
pub open spec fn ascii_uppercase(c: char) -> char {
    if 'a' <= c && c <= 'z' {
        ((c as u8) - 32) as char
    } else {
        c
    }
}

/// Upper-cases one ASCII letter.
pub fn to_ascii_uppercase(c: char) -> (r: char)
    ensures
        r == ascii_uppercase(c),
{
    if 'a' <= c && c <= 'z' {
        ((c as u8) - 32) as char
    } else {
        c
    }
}

/// The character that stands for the decimal digit `digit`.
pub open spec fn decimal_digit(digit: u8) -> char
    recommends
        digit <= 9,
{
    (48 + digit) as char
}

/// The character of one decimal digit.
pub fn digit_char(digit: u8) -> (r: char)
    requires
        digit <= 9,
    ensures
        r == decimal_digit(digit),
{
    (48 + digit) as char
}

/// `word` with its first character upper-cased; the empty word stays empty.
pub open spec fn capitalized(word: Seq<char>) -> Seq<char> {
    if word.len() == 0 {
        word
    } else {
        word.update(0, ascii_uppercase(word[0]))
    }
}

/// Upper-cases the first character of `word` and leaves the rest as it is.
pub fn capitalize_first(word: &str) -> (r: String)
    ensures
        r@ == capitalized(word@),
{
    let chars = chars_of(word);
    let mut out = String::new();
    let mut i: usize = 0;
    while i < chars.len()
        invariant
            i <= chars.len(),
            chars@ == word@,
            out@ == capitalized(word@).take(i as int),
        decreases chars.len() - i,
    {
        let c = if i == 0 {
            to_ascii_uppercase(chars[i])
        } else {
            chars[i]
        };
        out.push(c);
        i += 1;
    }
    out
}

/// What each string of `tokens` holds.
pub open spec fn texts(tokens: Seq<String>) -> Seq<Seq<char>> {
    tokens.map_values(|t: String| t@)
}

/// The tokens in order, with `separator` between each two neighbours.
pub open spec fn joined(tokens: Seq<Seq<char>>, separator: Seq<char>) -> Seq<char>
    decreases tokens.len(),
{
    if tokens.len() == 0 {
        Seq::empty()
    } else if tokens.len() == 1 {
        tokens[0]
    } else {
        joined(tokens.drop_last(), separator) + separator + tokens.last()
    }
}

/// Joins `tokens` with `separator` between each two neighbours.
pub fn join_tokens(tokens: &Vec<String>, separator: &str) -> (r: String)
    ensures
        r@ == joined(texts(tokens@), separator@),
{
    let mut out = String::new();
    let mut i: usize = 0;
    while i < tokens.len()
        invariant
            i <= tokens.len(),
            out@ == joined(texts(tokens@).take(i as int), separator@),
        decreases tokens.len() - i,
    {
        assert(texts(tokens@).take(i + 1).drop_last() == texts(tokens@).take(i as int));
        if i > 0 {
            out.append(separator);
        }
        out.append(tokens[i].as_str());
        i += 1;
    }
    assert(texts(tokens@).take(tokens.len() as int) == texts(tokens@));
    out
}

} // verus!
