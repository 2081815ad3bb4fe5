//! The whole way from wordlist text to passphrase: parse the wordlist, roll
//! the dice, look the words up, and assemble them with what chance decides.

use crate::assemble::all_found;
use crate::assemble::assemble_passphrase;
use crate::assemble::digits_fit;
use crate::assemble::passphrase_of;
use crate::assemble::picks_fit;
use crate::assemble::select_word;
use crate::assemble::separator_digits;
use crate::assemble::words_for;
use crate::assemble::SpecialPick;
use crate::assemble::DIGIT_BOUND;
use crate::assemble::SPECIAL_COUNT;
use crate::dice::generate_dice_rolls;
use crate::dice::is_roll_code;
use crate::kinds::GenerationError;
use crate::kinds::SeparatorKind;
use crate::pattern::regex_accepts;
use crate::pattern::ENTRY_PATTERN;
use crate::random::draw_in_range;
use crate::random::seed_from_os;
use crate::text::texts;
use crate::wordlist::parse_diceware_wordlist;
use crate::wordlist::wordlist_table;
use crate::wordlist::WordlistTable;
use vstd::prelude::*;

verus! {

/// The number of words in a passphrase.
pub const WORDS_PER_PASSPHRASE: usize = 5;

/// The number of special characters that are inserted where they are asked
/// for.
pub const SPECIALS_PER_PASSPHRASE: usize = 3;

/// All that chance decides in one generation.
pub struct Draw {
    /// The roll codes, one for each word.
    pub rolls: Seq<Seq<char>>,
    /// The insertions of special characters, in the order they are made.
    pub picks: Seq<SpecialPick>,
    /// The separator digits, one for each gap, from the front.
    pub digits: Seq<u8>,
}

/// Whether `rolls` can come from the dice: five roll codes.
pub open spec fn rolls_possible(rolls: Seq<Seq<char>>) -> bool {
    &&& rolls.len() == WORDS_PER_PASSPHRASE
    &&& forall|i: int| 0 <= i < rolls.len() ==> is_roll_code(#[trigger] rolls[i])
}

/// Whether `picks` can be drawn for `count` tokens: none where no special
/// characters are asked for; three otherwise, each naming a special character
/// and one of the places where a token can go when its turn comes, from
/// before the first token to behind the last.
pub open spec fn picks_possible(
    count: int,
    picks: Seq<SpecialPick>,
    add_special_characters: bool,
) -> bool {
    if add_special_characters {
        picks.len() == SPECIALS_PER_PASSPHRASE && picks_fit(count, picks)
    } else {
        picks.len() == 0
    }
}

/// Whether `draw` can come out of one generation with these settings.
pub open spec fn draw_possible(
    draw: Draw,
    separator_kind: SeparatorKind,
    add_special_characters: bool,
) -> bool {
    &&& rolls_possible(draw.rolls)
    &&& picks_possible(draw.rolls.len() as int, draw.picks, add_special_characters)
    &&& digits_fit((draw.rolls.len() + draw.picks.len()) as int, draw.digits, separator_kind)
}

/// The passphrase that `draw` gives with `table`.
pub open spec fn passphrase_from(
    table: Map<Seq<char>, Seq<char>>,
    draw: Draw,
    separator_kind: SeparatorKind,
    capitalize: bool,
) -> Seq<char> {
    passphrase_of(
        words_for(table, draw.rolls, capitalize),
        draw.picks,
        draw.digits,
        separator_kind,
    )
}

/// Whether `table` has a word for every roll code there is.
pub open spec fn table_complete(table: Map<Seq<char>, Seq<char>>) -> bool {
    forall|code: Seq<char>| is_roll_code(code) ==> #[trigger] table.contains_key(code)
}

/// Rolls the dice five times and looks up the word of each roll as soon as
/// it is rolled.
pub fn draw_words(table: &WordlistTable, capitalize: bool) -> (r: Result<
    Vec<String>,
    GenerationError,
>)
    ensures
        match r {
            Ok(words) => exists|rolls: Seq<Seq<char>>|
                #![trigger rolls_possible(rolls)]
                rolls_possible(rolls) && all_found(table@, rolls) && texts(words@) == words_for(
                    table@,
                    rolls,
                    capitalize,
                ),
            Err(GenerationError::IntegrityFailure) => exists|roll: Seq<char>|
                #![trigger is_roll_code(roll)]
                is_roll_code(roll) && !table@.contains_key(roll),
            Err(GenerationError::EntropyFailure) => true,
            Err(_) => false,
        },
{
    let mut words: Vec<String> = Vec::new();
    let ghost mut rolls: Seq<Seq<char>> = Seq::empty();
    let mut i: usize = 0;
    while i < WORDS_PER_PASSPHRASE
        invariant
            i <= WORDS_PER_PASSPHRASE,
            rolls.len() == i,
            forall|k: int| 0 <= k < rolls.len() ==> is_roll_code(#[trigger] rolls[k]),
            all_found(table@, rolls),
            texts(words@) == words_for(table@, rolls, capitalize),
        decreases WORDS_PER_PASSPHRASE - i,
    {
        let roll = match generate_dice_rolls() {
            Ok(roll) => roll,
            Err(e) => {
                return Err(e);
            },
        };
        let ghost found = texts(words@);
        match select_word(table, roll.as_str(), capitalize) {
            Ok(word) => {
                words.push(word);
                proof {
                    let earlier = rolls;
                    rolls = rolls.push(roll@);
                    assert(texts(words@) =~= found.push(word@));
                    assert forall|k: int| 0 <= k < rolls.len() implies is_roll_code(
                        #[trigger] rolls[k],
                    ) && table@.contains_key(rolls[k]) by {
                        if k < earlier.len() {
                            assert(rolls[k] == earlier[k]);
                        }
                    }
                    assert(texts(words@) =~= words_for(table@, rolls, capitalize)) by {
                        assert forall|k: int| 0 <= k < rolls.len() implies texts(words@)[k]
                            == words_for(table@, rolls, capitalize)[k] by {
                            if k < earlier.len() {
                                assert(found[k] == words_for(table@, earlier, capitalize)[k]);
                            }
                        }
                    }
                }
            },
            Err(e) => {
                return Err(e);
            },
        }
        i += 1;
    }
    assert(rolls_possible(rolls));
    Ok(words)
}

/// Draws the insertions of special characters for `count` tokens: three
/// times a special character and a place for it among the tokens, the places
/// being one more each time.
pub fn draw_special_picks(count: usize) -> (r: Result<Vec<SpecialPick>, GenerationError>)
    requires
        count + SPECIALS_PER_PASSPHRASE <= usize::MAX,
    ensures
        match r {
            Ok(picks) => picks_possible(count as int, picks@, true),
            Err(e) => e == GenerationError::EntropyFailure,
        },
{
    let mut rng = match seed_from_os() {
        Ok(rng) => rng,
        Err(_) => {
            return Err(GenerationError::EntropyFailure);
        },
    };
    let mut picks: Vec<SpecialPick> = Vec::new();
    let mut i: usize = 0;
    while i < SPECIALS_PER_PASSPHRASE
        invariant
            i <= SPECIALS_PER_PASSPHRASE,
            count + SPECIALS_PER_PASSPHRASE <= usize::MAX,
            picks.len() == i,
            picks_fit(count as int, picks@),
        decreases SPECIALS_PER_PASSPHRASE - i,
    {
        let symbol = draw_in_range(&mut rng, 0, SPECIAL_COUNT);
        let position = draw_in_range(&mut rng, 0, count + i + 1);
        let ghost earlier = picks@;
        picks.push(SpecialPick { symbol, position });
        assert forall|k: int| 0 <= k < picks.len() implies (#[trigger] picks@[k]).symbol
            < SPECIAL_COUNT && picks@[k].position <= count + k by {
            if k < i {
                assert(picks@[k] == earlier[k]);
            }
        }
        i += 1;
    }
    Ok(picks)
}

/// Draws `count` separator digits, each from 0 to 8.
pub fn draw_digits(count: usize) -> (r: Result<Vec<u8>, GenerationError>)
    ensures
        match r {
            Ok(digits) => digits.len() == count && separator_digits(digits@),
            Err(e) => e == GenerationError::EntropyFailure,
        },
{
    let mut rng = match seed_from_os() {
        Ok(rng) => rng,
        Err(_) => {
            return Err(GenerationError::EntropyFailure);
        },
    };
    let mut digits: Vec<u8> = Vec::new();
    let mut i: usize = 0;
    while i < count
        invariant
            i <= count,
            digits.len() == i,
            separator_digits(digits@),
        decreases count - i,
    {
        let digit = draw_in_range(&mut rng, 0, DIGIT_BOUND as usize);
        digits.push(digit as u8);
        i += 1;
    }
    Ok(digits)
}

/// Generates a passphrase from the wordlist in `wordlist_data`.
///
/// Five rolls of the dice pick five words, which are capitalised where
/// `capitalize` is set. Where `add_special_characters` is set, three special
/// characters are inserted among them. The tokens are then joined as
/// `separator_kind` says. Whatever chance decides, the passphrase is the one
/// that [`passphrase_from`] gives for some possible draw.
///
/// Every failure ends the generation, and each kind is told apart: a roll
/// without a word is an integrity failure, which a complete wordlist rules
/// out; an entry pattern that the regex engine turns down is a pattern
/// failure; a generator that the operating system would not seed is an
/// entropy failure. Getting hold of the wordlist is the caller's part, and so
/// is the acquisition failure.
pub fn generate_passphrase(
    wordlist_data: &str,
    separator_kind: SeparatorKind,
    capitalize: bool,
    add_special_characters: bool,
) -> (r: Result<String, GenerationError>)
    ensures
        match r {
            Ok(passphrase) => regex_accepts(ENTRY_PATTERN@) && exists|draw: Draw|
                #![trigger draw_possible(draw, separator_kind, add_special_characters)]
                draw_possible(draw, separator_kind, add_special_characters) && all_found(
                    wordlist_table(wordlist_data@),
                    draw.rolls,
                ) && passphrase@ == passphrase_from(
                    wordlist_table(wordlist_data@),
                    draw,
                    separator_kind,
                    capitalize,
                ),
            Err(GenerationError::PatternFailure) => !regex_accepts(ENTRY_PATTERN@),
            Err(GenerationError::IntegrityFailure) => regex_accepts(ENTRY_PATTERN@)
                && !table_complete(wordlist_table(wordlist_data@)),
            Err(GenerationError::EntropyFailure) => regex_accepts(ENTRY_PATTERN@),
            Err(GenerationError::AcquisitionFailure) => false,
        },
{
    let table = match parse_diceware_wordlist(wordlist_data) {
        Ok(table) => table,
        Err(e) => {
            return Err(e);
        },
    };
    let words = match draw_words(&table, capitalize) {
        Ok(words) => words,
        Err(e) => {
            return Err(e);
        },
    };
    let ghost rolls = choose|rolls: Seq<Seq<char>>|
        #![trigger rolls_possible(rolls)]
        rolls_possible(rolls) && all_found(table@, rolls) && texts(words@) == words_for(
            table@,
            rolls,
            capitalize,
        );
    assert(words.len() == WORDS_PER_PASSPHRASE) by {
        assert(texts(words@).len() == rolls.len());
    }
    let picks = if add_special_characters {
        match draw_special_picks(words.len()) {
            Ok(picks) => picks,
            Err(e) => {
                return Err(e);
            },
        }
    } else {
        Vec::new()
    };
    let digits = match separator_kind {
        SeparatorKind::Digit => {
            match draw_digits(words.len() + picks.len() - 1) {
                Ok(digits) => digits,
                Err(e) => {
                    return Err(e);
                },
            }
        },
        SeparatorKind::Hyphen => Vec::new(),
    };
    let ghost draw = Draw { rolls, picks: picks@, digits: digits@ };
    assert(draw_possible(draw, separator_kind, add_special_characters));
    Ok(assemble_passphrase(words, &picks, &digits, separator_kind))
}

} // verus!
