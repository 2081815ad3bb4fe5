//! From five words to a passphrase: special characters are inserted among the
//! tokens, then the tokens are joined with hyphens or with digits.
//!
//! Everything here works on values that are handed in. Where they come from
//! dice and chance is decided elsewhere.

use crate::kinds::GenerationError;
use crate::kinds::SeparatorKind;
use crate::text::capitalize_first;
use crate::text::capitalized;
use crate::text::decimal_digit;
use crate::text::digit_char;
use crate::text::join_tokens;
use crate::text::joined;
use crate::text::texts;
use crate::wordlist::WordlistTable;
use vstd::prelude::*;

verus! {

/// The number of special characters to choose from.
pub const SPECIAL_COUNT: usize = 32;

/// Separator digits lie below this bound: 9 itself is never used.
pub const DIGIT_BOUND: u8 = 9;

/// The special characters: the punctuation and symbols of ASCII.
pub open spec fn special_characters() -> Seq<char> {
    seq![
        '!', '"', '#', '$', '%', '&', '\'', '(', ')', '*', '+', ',', '-', '.', '/', ':',
        ';', '<', '=', '>', '?', '@', '[', '\\', ']', '^', '_', '`', '{', '|', '}', '~',
    ]
}

/// The special character with the number `symbol`.
pub fn special_character(symbol: usize) -> (r: char)
    requires
        symbol < SPECIAL_COUNT,
    ensures
        r == special_characters()[symbol as int],
{
    let table: [char; 32] = [
        '!', '"', '#', '$', '%', '&', '\'', '(', ')', '*', '+', ',', '-', '.', '/', ':',
        ';', '<', '=', '>', '?', '@', '[', '\\', ']', '^', '_', '`', '{', '|', '}', '~',
    ];
    table[symbol]
}

/// One insertion of a special character: which one, and before which token.
/// A position equal to the number of tokens puts it behind the last.
#[derive(Clone, Copy, Debug, PartialEq, Eq)]
pub struct SpecialPick {
    pub symbol: usize,
    pub position: usize,
}

/// The token that a special character makes.
pub open spec fn special_token(symbol: int) -> Seq<char> {
    seq![special_characters()[symbol]]
}

/// The tokens after one insertion.
pub open spec fn with_special(tokens: Seq<Seq<char>>, pick: SpecialPick) -> Seq<Seq<char>> {
    tokens.insert(pick.position as int, special_token(pick.symbol as int))
}

/// The tokens after the insertions of `picks`, made in order: each position
/// counts among the tokens that are there when its turn comes.
pub open spec fn with_specials(tokens: Seq<Seq<char>>, picks: Seq<SpecialPick>) -> Seq<Seq<char>>
    decreases picks.len(),
{
    if picks.len() == 0 {
        tokens
    } else {
        with_special(with_specials(tokens, picks.drop_last()), picks.last())
    }
}

/// Whether `picks` can be made one after another on `count` tokens: each
/// names a special character and a place that exists when its turn comes.
pub open spec fn picks_fit(count: int, picks: Seq<SpecialPick>) -> bool {
    forall|i: int|
        0 <= i < picks.len() ==> (#[trigger] picks[i]).symbol < SPECIAL_COUNT && picks[i].position
            <= count + i
}

/// A string of the one character `c`.
pub fn string_of_char(c: char) -> (r: String)
    ensures
        r@ == seq![c],
{
    let mut out = String::new();
    out.push(c);
    out
}

/// Inserts one special character among the tokens.
pub fn insert_special(tokens: &mut Vec<String>, pick: SpecialPick)
    requires
        pick.symbol < SPECIAL_COUNT,
        pick.position <= old(tokens).len(),
    ensures
        texts(final(tokens)@) == with_special(texts(old(tokens)@), pick),
        final(tokens).len() == old(tokens).len() + 1,
{
    let token = string_of_char(special_character(pick.symbol));
    tokens.insert(pick.position, token);
}

/// Inserts the special characters of `picks` among the tokens, one after
/// another.
pub fn insert_specials(tokens: &mut Vec<String>, picks: &Vec<SpecialPick>)
    requires
        picks_fit(old(tokens).len() as int, picks@),
    ensures
        texts(final(tokens)@) == with_specials(texts(old(tokens)@), picks@),
        final(tokens).len() == old(tokens).len() + picks.len(),
{
    let mut i: usize = 0;
    while i < picks.len()
        invariant
            i <= picks.len(),
            picks_fit(old(tokens).len() as int, picks@),
            tokens.len() == old(tokens).len() + i,
            texts(tokens@) == with_specials(texts(old(tokens)@), picks@.take(i as int)),
        decreases picks.len() - i,
    {
        assert(picks@.take(i + 1).drop_last() == picks@.take(i as int));
        let pick = picks[i];
        insert_special(tokens, pick);
        i += 1;
    }
    assert(picks@.take(picks.len() as int) == picks@);
}

/// The token that a separator digit makes.
pub open spec fn digit_token(digit: u8) -> Seq<char> {
    seq![decimal_digit(digit)]
}

/// Whether each of `digits` can separate tokens: 0 to 8, never 9.
pub open spec fn separator_digits(digits: Seq<u8>) -> bool {
    forall|i: int| 0 <= i < digits.len() ==> #[trigger] digits[i] < DIGIT_BOUND
}

/// The tokens with one digit between each two neighbours: token, digit,
/// token, digit, and so on, ending with the last token.
pub open spec fn interleaved(tokens: Seq<Seq<char>>, digits: Seq<u8>) -> Seq<Seq<char>>
    recommends
        digits.len() + 1 == tokens.len(),
{
    if tokens.len() == 0 {
        tokens
    } else {
        Seq::new(
            (2 * tokens.len() - 1) as nat,
            |j: int|
                if j % 2 == 0 {
                    tokens[j / 2]
                } else {
                    digit_token(digits[j / 2])
                },
        )
    }
}

/// The tokens when the first `done` gaps hold their digits and the others
/// are still closed.
pub open spec fn interleaved_up_to(tokens: Seq<Seq<char>>, digits: Seq<u8>, done: int) -> Seq<
    Seq<char>,
> {
    Seq::new(
        (tokens.len() + done) as nat,
        |j: int|
            if j >= 2 * done {
                tokens[j - done]
            } else if j % 2 == 0 {
                tokens[j / 2]
            } else {
                digit_token(digits[j / 2])
            },
    )
}

/// Puts one digit between each two neighbouring tokens, in one pass from the
/// front: the digit of gap `i` goes to place `2 * i + 1`.
pub fn interleave_digits(tokens: &mut Vec<String>, digits: &Vec<u8>)
    requires
        digits.len() + 1 == old(tokens).len(),
        separator_digits(digits@),
    ensures
        texts(final(tokens)@) == interleaved(texts(old(tokens)@), digits@),
{
    let ghost before = texts(tokens@);
    let gaps = tokens.len() - 1;
    let mut i: usize = 0;
    while i < gaps
        invariant
            i <= gaps,
            gaps + 1 == before.len(),
            digits.len() == gaps,
            separator_digits(digits@),
            tokens.len() == before.len() + i,
            texts(tokens@) == interleaved_up_to(before, digits@, i as int),
        decreases gaps - i,
    {
        let ghost so_far = texts(tokens@);
        let token = string_of_char(digit_char(digits[i]));
        tokens.insert(i + i + 1, token);
        assert(texts(tokens@) =~= so_far.insert(2 * i + 1, digit_token(digits@[i as int])));
        i += 1;
    }
}

/// `word` as it enters the passphrase: with its first character upper-cased
/// where `capitalize` is set, unchanged where it is not.
pub open spec fn styled(word: Seq<char>, capitalize: bool) -> Seq<char> {
    if capitalize {
        capitalized(word)
    } else {
        word
    }
}

/// Whether the table has a word for each of `rolls`.
pub open spec fn all_found(table: Map<Seq<char>, Seq<char>>, rolls: Seq<Seq<char>>) -> bool {
    forall|i: int| 0 <= i < rolls.len() ==> table.contains_key(#[trigger] rolls[i])
}

/// The words of `rolls`, in roll order, each styled.
pub open spec fn words_for(
    table: Map<Seq<char>, Seq<char>>,
    rolls: Seq<Seq<char>>,
    capitalize: bool,
) -> Seq<Seq<char>> {
    Seq::new(rolls.len(), |i: int| styled(table[rolls[i]], capitalize))
}

/// Looks up the word of one roll and styles it. A roll without a word is an
/// integrity failure: no other word stands in for it.
pub fn select_word(table: &WordlistTable, roll: &str, capitalize: bool) -> (r: Result<
    String,
    GenerationError,
>)
    ensures
        match r {
            Ok(word) => table@.contains_key(roll@) && word@ == styled(table@[roll@], capitalize),
            Err(e) => e == GenerationError::IntegrityFailure && !table@.contains_key(roll@),
        },
{
    match table.get(roll) {
        Some(word) => {
            if capitalize {
                Ok(capitalize_first(word.as_str()))
            } else {
                Ok(word)
            }
        },
        None => Err(GenerationError::IntegrityFailure),
    }
}

/// Looks up the words of `rolls`, in order. One roll without a word fails the
/// whole selection.
pub fn select_words(table: &WordlistTable, rolls: &Vec<String>, capitalize: bool) -> (r: Result<
    Vec<String>,
    GenerationError,
>)
    ensures
        match r {
            Ok(words) => all_found(table@, texts(rolls@)) && texts(words@) == words_for(
                table@,
                texts(rolls@),
                capitalize,
            ),
            Err(e) => e == GenerationError::IntegrityFailure && !all_found(table@, texts(rolls@)),
        },
{
    let mut words: Vec<String> = Vec::new();
    let mut i: usize = 0;
    while i < rolls.len()
        invariant
            i <= rolls.len(),
            all_found(table@, texts(rolls@).take(i as int)),
            texts(words@) == words_for(table@, texts(rolls@), capitalize).take(i as int),
        decreases rolls.len() - i,
    {
        assert(texts(rolls@)[i as int] == rolls@[i as int]@);
        let ghost found = texts(words@);
        match select_word(table, rolls[i].as_str(), capitalize) {
            Ok(word) => {
                words.push(word);
                assert(texts(words@) =~= found.push(word@));
            },
            Err(e) => {
                return Err(e);
            },
        }
        assert forall|k: int| 0 <= k < i + 1 implies table@.contains_key(
            #[trigger] texts(rolls@).take(i + 1)[k],
        ) by {
            if k < i {
                assert(texts(rolls@).take(i as int)[k] == texts(rolls@).take(i + 1)[k]);
            }
        }
        i += 1;
    }
    assert(texts(rolls@).take(rolls.len() as int) == texts(rolls@));
    Ok(words)
}

/// What stands between two tokens when they are joined: a hyphen, or
/// nothing where digits already stand between them.
pub open spec fn separator_text(separator_kind: SeparatorKind) -> Seq<char> {
    match separator_kind {
        SeparatorKind::Hyphen => "-"@,
        SeparatorKind::Digit => ""@,
    }
}

/// The tokens of the passphrase that `words` make: the special characters of
/// `picks` are inserted among the words; for digit separators one of `digits`
/// is then put into each gap.
pub open spec fn tokens_of(
    words: Seq<Seq<char>>,
    picks: Seq<SpecialPick>,
    digits: Seq<u8>,
    separator_kind: SeparatorKind,
) -> Seq<Seq<char>> {
    match separator_kind {
        SeparatorKind::Hyphen => with_specials(words, picks),
        SeparatorKind::Digit => interleaved(with_specials(words, picks), digits),
    }
}

/// The passphrase that `words` make: its tokens, joined.
pub open spec fn passphrase_of(
    words: Seq<Seq<char>>,
    picks: Seq<SpecialPick>,
    digits: Seq<u8>,
    separator_kind: SeparatorKind,
) -> Seq<char> {
    joined(tokens_of(words, picks, digits, separator_kind), separator_text(separator_kind))
}

/// Whether `digits` are what `separator_kind` needs for `count` tokens: none
/// for hyphens, one for each gap otherwise.
pub open spec fn digits_fit(count: int, digits: Seq<u8>, separator_kind: SeparatorKind) -> bool {
    match separator_kind {
        SeparatorKind::Hyphen => digits.len() == 0,
        SeparatorKind::Digit => digits.len() + 1 == count && separator_digits(digits),
    }
}

/// Makes the passphrase of `words`: inserts the special characters of
/// `picks`, then joins the tokens with `-` or with `digits`.
pub fn assemble_passphrase(
    words: Vec<String>,
    picks: &Vec<SpecialPick>,
    digits: &Vec<u8>,
    separator_kind: SeparatorKind,
) -> (r: String)
    requires
        picks_fit(words.len() as int, picks@),
        digits_fit(words.len() + picks.len(), digits@, separator_kind),
    ensures
        r@ == passphrase_of(texts(words@), picks@, digits@, separator_kind),
{
    let mut tokens = words;
    insert_specials(&mut tokens, picks);
    match separator_kind {
        SeparatorKind::Digit => {
            interleave_digits(&mut tokens, digits);
            join_tokens(&tokens, "")
        },
        SeparatorKind::Hyphen => join_tokens(&tokens, "-"),
    }
}

} // verus!
