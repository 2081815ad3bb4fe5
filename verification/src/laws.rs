//! What holds of every passphrase, whatever the dice and chance decide: how
//! long it is, where its separators stand, and what capitalisation touches.

use crate::assemble::digit_token;
use crate::assemble::digits_fit;
use crate::assemble::interleaved;
use crate::assemble::passphrase_of;
use crate::assemble::picks_fit;
use crate::assemble::special_characters;
use crate::assemble::special_token;
use crate::assemble::tokens_of;
use crate::assemble::with_special;
use crate::assemble::with_specials;
use crate::assemble::words_for;
use crate::assemble::SpecialPick;
use crate::assemble::DIGIT_BOUND;
use crate::assemble::SPECIAL_COUNT;
use crate::generate::draw_possible;
use crate::generate::SPECIALS_PER_PASSPHRASE;
use crate::generate::WORDS_PER_PASSPHRASE;
use crate::generate::passphrase_from;
use crate::generate::Draw;
use crate::kinds::SeparatorKind;
use crate::text::ascii_uppercase;
use crate::text::capitalized;
use crate::text::decimal_digit;
use crate::text::joined;
use vstd::prelude::*;

verus! {

/// The number of characters in all of `tokens` together.
pub open spec fn total_len(tokens: Seq<Seq<char>>) -> nat
    decreases tokens.len(),
{
    if tokens.len() == 0 {
        0
    } else {
        total_len(tokens.drop_last()) + tokens.last().len()
    }
}

/// How often `c` occurs in `text`.
pub open spec fn occurrences(text: Seq<char>, c: char) -> nat
    decreases text.len(),
{
    if text.len() == 0 {
        0
    } else {
        occurrences(text.drop_last(), c) + if text.last() == c {
            1nat
        } else {
            0nat
        }
    }
}

/// How often `c` occurs in all of `tokens` together.
pub open spec fn occurrences_within(tokens: Seq<Seq<char>>, c: char) -> nat
    decreases tokens.len(),
{
    if tokens.len() == 0 {
        0
    } else {
        occurrences_within(tokens.drop_last(), c) + occurrences(tokens.last(), c)
    }
}

/// Joining one more token puts the separator and the token at the end.
pub proof fn lemma_joined_push(tokens: Seq<Seq<char>>, separator: Seq<char>, last: Seq<char>)
    requires
        tokens.len() > 0,
    ensures
        joined(tokens.push(last), separator) == joined(tokens, separator) + separator + last,
{
    assert(tokens.push(last).drop_last() == tokens);
}

/// The characters of two runs of tokens add up.
pub proof fn lemma_total_len_add(front: Seq<Seq<char>>, back: Seq<Seq<char>>)
    ensures
        total_len(front + back) == total_len(front) + total_len(back),
    decreases back.len(),
{
    if back.len() == 0 {
        assert(front + back == front);
    } else {
        lemma_total_len_add(front, back.drop_last());
        assert((front + back).drop_last() == front + back.drop_last());
    }
}

/// The occurrences in two texts add up.
pub proof fn lemma_occurrences_add(front: Seq<char>, back: Seq<char>, c: char)
    ensures
        occurrences(front + back, c) == occurrences(front, c) + occurrences(back, c),
    decreases back.len(),
{
    if back.len() == 0 {
        assert(front + back == front);
    } else {
        lemma_occurrences_add(front, back.drop_last(), c);
        assert((front + back).drop_last() == front + back.drop_last());
    }
}

/// The occurrences in two runs of tokens add up.
pub proof fn lemma_occurrences_within_add(front: Seq<Seq<char>>, back: Seq<Seq<char>>, c: char)
    ensures
        occurrences_within(front + back, c) == occurrences_within(front, c) + occurrences_within(
            back,
            c,
        ),
    decreases back.len(),
{
    if back.len() == 0 {
        assert(front + back == front);
    } else {
        lemma_occurrences_within_add(front, back.drop_last(), c);
        assert((front + back).drop_last() == front + back.drop_last());
    }
}

/// A joined text holds the characters of its tokens and one separator for
/// each gap.
pub proof fn lemma_joined_len(tokens: Seq<Seq<char>>, separator: Seq<char>)
    requires
        tokens.len() > 0,
    ensures
        joined(tokens, separator).len() == total_len(tokens) + (tokens.len() - 1)
            * separator.len(),
    decreases tokens.len(),
{
    if tokens.len() == 1 {
        assert(total_len(tokens.drop_last()) == 0);
    } else {
        lemma_joined_len(tokens.drop_last(), separator);
        assert((tokens.len() - 2) * separator.len() + separator.len() == (tokens.len() - 1)
            * separator.len()) by (nonlinear_arith);
    }
}

/// In a joined text a character occurs as often as in the tokens, and once
/// more in each gap for every time that it occurs in the separator.
pub proof fn lemma_joined_occurrences(tokens: Seq<Seq<char>>, separator: Seq<char>, c: char)
    requires
        tokens.len() > 0,
    ensures
        occurrences(joined(tokens, separator), c) == occurrences_within(tokens, c) + (tokens.len()
            - 1) * occurrences(separator, c),
    decreases tokens.len(),
{
    if tokens.len() == 1 {
        assert(occurrences_within(tokens.drop_last(), c) == 0);
    } else {
        lemma_joined_occurrences(tokens.drop_last(), separator, c);
        lemma_occurrences_add(joined(tokens.drop_last(), separator), separator, c);
        lemma_occurrences_add(joined(tokens.drop_last(), separator) + separator, tokens.last(), c);
        assert((tokens.len() - 2) * occurrences(separator, c) + occurrences(separator, c) == (
        tokens.len() - 1) * occurrences(separator, c)) by (nonlinear_arith);
    }
}

/// An insertion adds the one character of its token.
pub proof fn lemma_special_adds_one(tokens: Seq<Seq<char>>, pick: SpecialPick)
    requires
        pick.position <= tokens.len(),
    ensures
        with_special(tokens, pick).len() == tokens.len() + 1,
        total_len(with_special(tokens, pick)) == total_len(tokens) + 1,
{
    let at = pick.position as int;
    let token = special_token(pick.symbol as int);
    let front = tokens.subrange(0, at);
    let back = tokens.subrange(at, tokens.len() as int);
    assert(tokens == front + back);
    lemma_total_len_add(front, back);
    lemma_total_len_add(front.push(token), back);
    assert(front.push(token).drop_last() == front);
}

/// The insertions of special characters add one token and one character
/// each.
pub proof fn lemma_specials_add_one_each(words: Seq<Seq<char>>, picks: Seq<SpecialPick>)
    requires
        picks_fit(words.len() as int, picks),
    ensures
        with_specials(words, picks).len() == words.len() + picks.len(),
        total_len(with_specials(words, picks)) == total_len(words) + picks.len(),
    decreases picks.len(),
{
    if picks.len() > 0 {
        let front = picks.drop_last();
        assert forall|i: int| 0 <= i < front.len() implies (#[trigger] front[i]).symbol
            < SPECIAL_COUNT && front[i].position <= words.len() + i by {
            assert(front[i] == picks[i]);
        }
        lemma_specials_add_one_each(words, front);
        lemma_special_adds_one(with_specials(words, front), picks.last());
    }
}

/// Between tokens the digits stand one by one: the tokens keep their order at
/// the even places, and the digit of each gap stands at the odd place between
/// its two neighbours.
pub proof fn lemma_interleaved_places(tokens: Seq<Seq<char>>, digits: Seq<u8>)
    requires
        digits.len() + 1 == tokens.len(),
    ensures
        interleaved(tokens, digits).len() == tokens.len() + digits.len(),
        forall|i: int|
            0 <= i < tokens.len() ==> interleaved(tokens, digits)[2 * i] == #[trigger] tokens[i],
        forall|i: int|
            0 <= i < digits.len() ==> interleaved(tokens, digits)[2 * i + 1] == digit_token(
                #[trigger] digits[i],
            ),
{
    assert forall|i: int| 0 <= i < tokens.len() implies interleaved(tokens, digits)[2 * i]
        == #[trigger] tokens[i] by {
        assert((2 * i) % 2 == 0 && (2 * i) / 2 == i);
    }
    assert forall|i: int| 0 <= i < digits.len() implies interleaved(tokens, digits)[2 * i + 1]
        == digit_token(#[trigger] digits[i]) by {
        assert((2 * i + 1) % 2 == 1 && (2 * i + 1) / 2 == i);
    }
}

/// Interleaving adds one character for each digit.
pub proof fn lemma_interleaved_total_len(tokens: Seq<Seq<char>>, digits: Seq<u8>)
    requires
        digits.len() + 1 == tokens.len(),
    ensures
        total_len(interleaved(tokens, digits)) == total_len(tokens) + digits.len(),
    decreases tokens.len(),
{
    let all = interleaved(tokens, digits);
    if tokens.len() == 1 {
        assert(all == tokens);
    } else {
        let fewer = interleaved(tokens.drop_last(), digits.drop_last());
        lemma_interleaved_total_len(tokens.drop_last(), digits.drop_last());
        assert(all.drop_last().drop_last() =~= fewer);
        assert(total_len(all.drop_last()) == total_len(all.drop_last().drop_last())
            + all.drop_last().last().len());
        assert(all.last() == tokens.last()) by {
            assert((2 * tokens.len() - 2) % 2 == 0 && (2 * tokens.len() - 2) / 2 == tokens.len()
                - 1);
        }
        assert(all.drop_last().last() == digit_token(digits.last())) by {
            assert((2 * tokens.len() - 3) % 2 == 1 && (2 * tokens.len() - 3) / 2 == tokens.len()
                - 2);
        }
    }
}

/// The length of a passphrase: the characters of its words, one for each
/// special character, and one for each gap between tokens, whether a hyphen
/// or a digit fills it.
pub proof fn lemma_passphrase_len(
    words: Seq<Seq<char>>,
    picks: Seq<SpecialPick>,
    digits: Seq<u8>,
    separator_kind: SeparatorKind,
)
    requires
        words.len() > 0,
        picks_fit(words.len() as int, picks),
        digits_fit((words.len() + picks.len()) as int, digits, separator_kind),
    ensures
        passphrase_of(words, picks, digits, separator_kind).len() == total_len(words) + picks.len()
            + (words.len() + picks.len() - 1),
{
    reveal_strlit("-");
    reveal_strlit("");
    let tokens = with_specials(words, picks);
    lemma_specials_add_one_each(words, picks);
    match separator_kind {
        SeparatorKind::Hyphen => {
            lemma_joined_len(tokens, "-"@);
        },
        SeparatorKind::Digit => {
            lemma_interleaved_total_len(tokens, digits);
            lemma_joined_len(interleaved(tokens, digits), ""@);
        },
    }
}

/// Joined with hyphens, a passphrase has one hyphen for each gap between its
/// tokens, besides the hyphens that the tokens themselves hold: four for five
/// words, and one more for each special character.
pub proof fn lemma_hyphen_separators(words: Seq<Seq<char>>, picks: Seq<SpecialPick>)
    requires
        words.len() > 0,
        picks_fit(words.len() as int, picks),
    ensures
        occurrences(passphrase_of(words, picks, Seq::empty(), SeparatorKind::Hyphen), '-')
            == occurrences_within(with_specials(words, picks), '-') + (words.len() + picks.len()
            - 1),
{
    reveal_strlit("-");
    let tokens = with_specials(words, picks);
    lemma_specials_add_one_each(words, picks);
    lemma_joined_occurrences(tokens, "-"@, '-');
    assert(occurrences("-"@, '-') == 1) by {
        assert(occurrences("-"@.drop_last(), '-') == 0);
    }
}

/// Five words and no special characters, joined with hyphens: the words in
/// roll order with a hyphen in each of the four gaps.
pub proof fn lemma_plain_hyphen_passphrase(words: Seq<Seq<char>>)
    requires
        words.len() == 5,
    ensures
        passphrase_of(words, Seq::empty(), Seq::empty(), SeparatorKind::Hyphen) == words[0] + "-"@
            + words[1] + "-"@ + words[2] + "-"@ + words[3] + "-"@ + words[4],
        occurrences(
            passphrase_of(words, Seq::empty(), Seq::empty(), SeparatorKind::Hyphen),
            '-',
        ) == occurrences_within(words, '-') + 4,
{
    let picks = Seq::<SpecialPick>::empty();
    lemma_hyphen_separators(words, picks);
    lemma_joined_five(words, "-"@);
}

/// Five tokens joined: the tokens in order with the separator in each of the
/// four gaps.
pub proof fn lemma_joined_five(tokens: Seq<Seq<char>>, separator: Seq<char>)
    requires
        tokens.len() == 5,
    ensures
        joined(tokens, separator) == tokens[0] + separator + tokens[1] + separator + tokens[2]
            + separator + tokens[3] + separator + tokens[4],
{
    let one = tokens.take(1);
    let two = tokens.take(2);
    let three = tokens.take(3);
    let four = tokens.take(4);
    assert(two == one.push(tokens[1]));
    lemma_joined_push(one, separator, tokens[1]);
    assert(three == two.push(tokens[2]));
    lemma_joined_push(two, separator, tokens[2]);
    assert(four == three.push(tokens[3]));
    lemma_joined_push(three, separator, tokens[3]);
    lemma_joined_push(four, separator, tokens[4]);
}

/// A separator digit is one of the characters `0` to `8`, never `9`.
pub proof fn lemma_separator_digit_range(digit: u8)
    requires
        digit < DIGIT_BOUND,
    ensures
        '0' <= decimal_digit(digit) && decimal_digit(digit) <= '8',
        decimal_digit(digit) != '9',
        digit_token(digit).len() == 1,
{
}

/// Joined with digits, the text ends with the digit of the last gap and the
/// last token; before them stands the text of the tokens and digits before.
pub proof fn lemma_digit_join_step(tokens: Seq<Seq<char>>, digits: Seq<u8>)
    requires
        tokens.len() >= 2,
        digits.len() + 1 == tokens.len(),
    ensures
        joined(interleaved(tokens, digits), ""@) == joined(
            interleaved(tokens.drop_last(), digits.drop_last()),
            ""@,
        ) + digit_token(digits.last()) + tokens.last(),
{
    reveal_strlit("");
    let fewer = interleaved(tokens.drop_last(), digits.drop_last());
    let digit = digit_token(digits.last());
    assert(interleaved(tokens, digits) =~= fewer.push(digit).push(tokens.last()));
    lemma_joined_push(fewer, ""@, digit);
    lemma_joined_push(fewer.push(digit), ""@, tokens.last());
}

/// Five words and no special characters, joined with digits: the words in
/// roll order with one digit in each of the four gaps, and nothing else.
pub proof fn lemma_plain_digit_passphrase(words: Seq<Seq<char>>, digits: Seq<u8>)
    requires
        words.len() == 5,
        digits.len() == 4,
    ensures
        passphrase_of(words, Seq::empty(), digits, SeparatorKind::Digit) == words[0] + digit_token(
            digits[0],
        ) + words[1] + digit_token(digits[1]) + words[2] + digit_token(digits[2]) + words[3]
            + digit_token(digits[3]) + words[4],
{
    let picks = Seq::<SpecialPick>::empty();
    lemma_digit_join_step(words, digits);
    lemma_digit_join_step(words.take(4), digits.take(3));
    assert(words.take(4).drop_last() == words.take(3) && digits.take(3).drop_last()
        == digits.take(2));
    lemma_digit_join_step(words.take(3), digits.take(2));
    assert(words.take(3).drop_last() == words.take(2) && digits.take(2).drop_last()
        == digits.take(1));
    lemma_digit_join_step(words.take(2), digits.take(1));
    assert(words.take(2).drop_last() == words.take(1) && digits.take(1).drop_last()
        == digits.take(0));
}

/// Each of `tokens` with its first character upper-cased.
pub open spec fn capitalize_all(tokens: Seq<Seq<char>>) -> Seq<Seq<char>> {
    tokens.map_values(|token: Seq<char>| capitalized(token))
}

/// Capitalisation touches the first character of a word and no other: the
/// length stays, and so does every character behind the first.
pub proof fn lemma_capitalized_first_only(word: Seq<char>)
    ensures
        capitalized(word).len() == word.len(),
        word.len() > 0 ==> capitalized(word)[0] == ascii_uppercase(word[0]),
        forall|i: int| 1 <= i < word.len() ==> capitalized(word)[i] == word[i],
{
}

/// No special character is a lower-case letter: capitalisation leaves the
/// token of a special character as it is.
pub proof fn lemma_special_token_unchanged(symbol: int)
    requires
        0 <= symbol < SPECIAL_COUNT,
    ensures
        capitalized(special_token(symbol)) == special_token(symbol),
{
    assert(special_token(symbol)[0] == special_characters()[symbol]);
}

/// Capitalisation leaves the token of a digit as it is.
pub proof fn lemma_digit_token_unchanged(digit: u8)
    requires
        digit <= 9,
    ensures
        capitalized(digit_token(digit)) == digit_token(digit),
{
    assert(capitalized(digit_token(digit)) =~= digit_token(digit));
}

/// To capitalise the words and then insert special characters is to insert
/// them and then capitalise every token: the special characters come out the
/// same either way.
pub proof fn lemma_specials_keep_their_case(words: Seq<Seq<char>>, picks: Seq<SpecialPick>)
    requires
        picks_fit(words.len() as int, picks),
    ensures
        with_specials(capitalize_all(words), picks) == capitalize_all(with_specials(words, picks)),
    decreases picks.len(),
{
    if picks.len() > 0 {
        let front = picks.drop_last();
        assert forall|i: int| 0 <= i < front.len() implies (#[trigger] front[i]).symbol
            < SPECIAL_COUNT && front[i].position <= words.len() + i by {
            assert(front[i] == picks[i]);
        }
        lemma_specials_keep_their_case(words, front);
        lemma_specials_add_one_each(words, front);
        lemma_special_token_unchanged(picks.last().symbol as int);
        let plain = with_specials(words, front);
        assert(with_special(capitalize_all(plain), picks.last()) =~= capitalize_all(
            with_special(plain, picks.last()),
        ));
    } else {
        assert(with_specials(words, picks) == words);
    }
}

/// To capitalise the tokens and then put digits between them is to put the
/// digits there and then capitalise every token: the digits come out the same
/// either way.
pub proof fn lemma_digits_keep_their_case(tokens: Seq<Seq<char>>, digits: Seq<u8>)
    requires
        digits.len() + 1 == tokens.len(),
        forall|i: int| 0 <= i < digits.len() ==> #[trigger] digits[i] < DIGIT_BOUND,
    ensures
        interleaved(capitalize_all(tokens), digits) == capitalize_all(interleaved(tokens, digits)),
{
    let left = interleaved(capitalize_all(tokens), digits);
    let right = capitalize_all(interleaved(tokens, digits));
    assert forall|j: int| 0 <= j < left.len() implies left[j] == right[j] by {
        if j % 2 != 0 {
            lemma_digit_token_unchanged(digits[j / 2]);
        }
    }
}

/// Capitalisation reaches the words and nothing else. The tokens of the
/// capitalised passphrase are those of the plain one with their first
/// characters upper-cased, and that changes no special character and no
/// digit.
pub proof fn lemma_capitalization_touches_words_only(
    words: Seq<Seq<char>>,
    picks: Seq<SpecialPick>,
    digits: Seq<u8>,
    separator_kind: SeparatorKind,
)
    requires
        picks_fit(words.len() as int, picks),
        digits_fit((words.len() + picks.len()) as int, digits, separator_kind),
    ensures
        tokens_of(capitalize_all(words), picks, digits, separator_kind) == capitalize_all(
            tokens_of(words, picks, digits, separator_kind),
        ),
        forall|symbol: int|
            0 <= symbol < SPECIAL_COUNT ==> capitalized(#[trigger] special_token(symbol))
                == special_token(symbol),
        forall|digit: u8|
            digit < DIGIT_BOUND ==> capitalized(#[trigger] digit_token(digit)) == digit_token(
                digit,
            ),
{
    lemma_specials_keep_their_case(words, picks);
    lemma_specials_add_one_each(words, picks);
    match separator_kind {
        SeparatorKind::Hyphen => {},
        SeparatorKind::Digit => {
            lemma_digits_keep_their_case(with_specials(words, picks), digits);
        },
    }
    assert forall|symbol: int| 0 <= symbol < SPECIAL_COUNT implies capitalized(
        #[trigger] special_token(symbol),
    ) == special_token(symbol) by {
        lemma_special_token_unchanged(symbol);
    }
    assert forall|digit: u8| digit < DIGIT_BOUND implies capitalized(#[trigger] digit_token(digit))
        == digit_token(digit) by {
        lemma_digit_token_unchanged(digit);
    }
}

/// The capitalised words of some rolls are the plain words of those rolls
/// with their first characters upper-cased.
pub proof fn lemma_capitalized_words(table: Map<Seq<char>, Seq<char>>, rolls: Seq<Seq<char>>)
    ensures
        words_for(table, rolls, true) == capitalize_all(words_for(table, rolls, false)),
{
    assert(words_for(table, rolls, true) =~= capitalize_all(words_for(table, rolls, false)));
}

/// Capitalisation changes no length.
pub proof fn lemma_capitalize_all_total_len(tokens: Seq<Seq<char>>)
    ensures
        total_len(capitalize_all(tokens)) == total_len(tokens),
    decreases tokens.len(),
{
    if tokens.len() > 0 {
        lemma_capitalize_all_total_len(tokens.drop_last());
        assert(capitalize_all(tokens).drop_last() == capitalize_all(tokens.drop_last()));
    }
}

/// A generation works on five words, one for each roll and in roll order,
/// before anything is inserted or joined. The length of its passphrase is
/// settled by the words that the rolls pick and the two settings: the
/// characters of the five words, four separators, and two more characters for
/// each of the three special characters where they are asked for.
pub proof fn lemma_generated_passphrase_len(
    table: Map<Seq<char>, Seq<char>>,
    draw: Draw,
    separator_kind: SeparatorKind,
    capitalize: bool,
    add_special_characters: bool,
)
    requires
        draw_possible(draw, separator_kind, add_special_characters),
    ensures
        words_for(table, draw.rolls, capitalize).len() == WORDS_PER_PASSPHRASE,
        tokens_of(
            words_for(table, draw.rolls, capitalize),
            draw.picks,
            draw.digits,
            separator_kind,
        ).len() == match separator_kind {
            SeparatorKind::Hyphen => WORDS_PER_PASSPHRASE + draw.picks.len(),
            SeparatorKind::Digit => 2 * (WORDS_PER_PASSPHRASE + draw.picks.len()) - 1,
        },
        passphrase_from(table, draw, separator_kind, capitalize).len() == total_len(
            words_for(table, draw.rolls, false),
        ) + 4 + if add_special_characters {
            2 * SPECIALS_PER_PASSPHRASE
        } else {
            0
        },
{
    let words = words_for(table, draw.rolls, capitalize);
    lemma_specials_add_one_each(words, draw.picks);
    lemma_passphrase_len(words, draw.picks, draw.digits, separator_kind);
    if capitalize {
        lemma_capitalized_words(table, draw.rolls);
        lemma_capitalize_all_total_len(words_for(table, draw.rolls, false));
    }
}

} // verus!
