use password_generator::assemble::assemble_passphrase;
use password_generator::assemble::insert_special;
use password_generator::assemble::insert_specials;
use password_generator::assemble::interleave_digits;
use password_generator::assemble::select_word;
use password_generator::assemble::select_words;
use password_generator::assemble::special_character;
use password_generator::assemble::string_of_char;
use password_generator::assemble::SpecialPick;
use password_generator::assemble::DIGIT_BOUND;
use password_generator::assemble::SPECIAL_COUNT;
use password_generator::wordlist::parse_diceware_wordlist;
use password_generator::wordlist::WordlistTable;
use password_generator::GenerationError;
use password_generator::SeparatorKind;

fn strings(items: &[&str]) -> Vec<String> {
    items.iter().map(|s| s.to_string()).collect()
}

fn five_words() -> Vec<String> {
    strings(&["apple", "banana", "cherry", "date", "elder"])
}

fn small_table() -> WordlistTable {
    parse_diceware_wordlist("11111\tapple\n11112\tbanana\n11113\tcherry\n11114\tdate\n11115\telder\n")
        .unwrap()
}

#[test]
fn the_special_characters_are_the_ascii_punctuation() {
    let expected = [
        "!", "\"", "#", "$", "%", "&", "\'", "(", ")", "*", "+", ",", "-", ".", "/", ":", ";",
        "<", "=", ">", "?", "@", "[", "\\", "]", "^", "_", "`", "{", "|", "}", "~",
    ];
    assert_eq!(SPECIAL_COUNT, 32);
    assert_eq!(expected.len(), SPECIAL_COUNT);
    for symbol in 0..SPECIAL_COUNT {
        assert_eq!(special_character(symbol).to_string(), expected[symbol]);
        assert!(special_character(symbol).is_ascii_punctuation());
    }
}

#[test]
fn separator_digits_stop_before_nine() {
    assert_eq!(DIGIT_BOUND, 9);
}

#[test]
fn string_of_char_holds_that_character() {
    assert_eq!(string_of_char('x'), "x");
    assert_eq!(string_of_char('\u{e9}'), "\u{e9}");
}

#[test]
fn insert_special_puts_the_character_before_the_token() {
    let mut tokens = strings(&["a", "b", "c"]);
    insert_special(&mut tokens, SpecialPick { symbol: 0, position: 1 });
    assert_eq!(tokens, strings(&["a", "!", "b", "c"]));
}

#[test]
fn insert_special_at_the_front_and_at_the_end() {
    let mut tokens = strings(&["a", "b"]);
    insert_special(&mut tokens, SpecialPick { symbol: 31, position: 0 });
    assert_eq!(tokens, strings(&["~", "a", "b"]));
    insert_special(&mut tokens, SpecialPick { symbol: 21, position: 3 });
    assert_eq!(tokens, strings(&["~", "a", "b", "@"]));
}

#[test]
fn insert_special_into_no_tokens() {
    let mut tokens: Vec<String> = Vec::new();
    insert_special(&mut tokens, SpecialPick { symbol: 3, position: 0 });
    assert_eq!(tokens, strings(&["$"]));
}

#[test]
fn later_insertions_count_earlier_ones() {
    let mut tokens = five_words();
    let picks = vec![
        SpecialPick { symbol: 0, position: 0 },
        SpecialPick { symbol: 1, position: 0 },
        SpecialPick { symbol: 2, position: 6 },
    ];
    insert_specials(&mut tokens, &picks);
    assert_eq!(
        tokens,
        strings(&["\"", "!", "apple", "banana", "cherry", "date", "#", "elder"])
    );
}

#[test]
fn insertions_are_made_in_order() {
    let mut one = strings(&["a", "b"]);
    insert_specials(
        &mut one,
        &vec![SpecialPick { symbol: 0, position: 1 }, SpecialPick { symbol: 1, position: 1 }],
    );
    assert_eq!(one, strings(&["a", "\"", "!", "b"]));
    let mut other = strings(&["a", "b"]);
    insert_specials(
        &mut other,
        &vec![SpecialPick { symbol: 1, position: 1 }, SpecialPick { symbol: 0, position: 1 }],
    );
    assert_eq!(other, strings(&["a", "!", "\"", "b"]));
}

#[test]
fn no_insertions_leave_the_tokens() {
    let mut tokens = five_words();
    insert_specials(&mut tokens, &Vec::new());
    assert_eq!(tokens, five_words());
}

#[test]
fn digits_go_into_every_gap() {
    let mut tokens = strings(&["a", "b", "c"]);
    interleave_digits(&mut tokens, &vec![1, 2]);
    assert_eq!(tokens, strings(&["a", "1", "b", "2", "c"]));
}

#[test]
fn digits_between_five_words() {
    let mut tokens = five_words();
    interleave_digits(&mut tokens, &vec![0, 8, 3, 5]);
    assert_eq!(
        tokens,
        strings(&["apple", "0", "banana", "8", "cherry", "3", "date", "5", "elder"])
    );
}

#[test]
fn one_token_has_no_gap() {
    let mut tokens = strings(&["solo"]);
    interleave_digits(&mut tokens, &Vec::new());
    assert_eq!(tokens, strings(&["solo"]));
}

#[test]
fn select_word_finds_the_word_of_a_roll() {
    let table = small_table();
    assert_eq!(select_word(&table, "11111", false), Ok("apple".to_string()));
    assert_eq!(select_word(&table, "11115", false), Ok("elder".to_string()));
}

#[test]
fn select_word_capitalizes_on_request() {
    let table = small_table();
    assert_eq!(select_word(&table, "11112", true), Ok("Banana".to_string()));
    assert_eq!(select_word(&table, "11112", false), Ok("banana".to_string()));
}

#[test]
fn roll_without_word_is_an_integrity_failure() {
    let table = small_table();
    assert_eq!(select_word(&table, "66666", false), Err(GenerationError::IntegrityFailure));
    assert_eq!(select_word(&table, "", true), Err(GenerationError::IntegrityFailure));
}

#[test]
fn select_words_keeps_roll_order() {
    let table = small_table();
    let rolls = strings(&["11113", "11111", "11111", "11115", "11112"]);
    assert_eq!(
        select_words(&table, &rolls, false),
        Ok(strings(&["cherry", "apple", "apple", "elder", "banana"]))
    );
    assert_eq!(
        select_words(&table, &rolls, true),
        Ok(strings(&["Cherry", "Apple", "Apple", "Elder", "Banana"]))
    );
}

#[test]
fn one_missing_roll_fails_the_selection() {
    let table = small_table();
    let rolls = strings(&["11113", "11111", "11116", "11115", "11112"]);
    assert_eq!(select_words(&table, &rolls, false), Err(GenerationError::IntegrityFailure));
}

#[test]
fn select_words_of_no_rolls_is_empty() {
    let table = small_table();
    assert_eq!(select_words(&table, &Vec::new(), true), Ok(Vec::new()));
}

#[test]
fn hyphen_passphrase_of_five_words() {
    let passphrase =
        assemble_passphrase(five_words(), &Vec::new(), &Vec::new(), SeparatorKind::Hyphen);
    assert_eq!(passphrase, "apple-banana-cherry-date-elder");
    assert_eq!(passphrase.matches('-').count(), 4);
}

#[test]
fn digit_passphrase_of_five_words() {
    let passphrase =
        assemble_passphrase(five_words(), &Vec::new(), &vec![4, 0, 8, 1], SeparatorKind::Digit);
    assert_eq!(passphrase, "apple4banana0cherry8date1elder");
}

#[test]
fn hyphen_passphrase_with_special_characters() {
    let picks = vec![
        SpecialPick { symbol: 0, position: 0 },
        SpecialPick { symbol: 12, position: 3 },
        SpecialPick { symbol: 31, position: 6 },
    ];
    let passphrase = assemble_passphrase(five_words(), &picks, &Vec::new(), SeparatorKind::Hyphen);
    assert_eq!(passphrase, "!-apple-banana---cherry-date-~-elder");
    let length: usize = five_words().iter().map(|w| w.len()).sum::<usize>() + 3 + 7;
    assert_eq!(passphrase.len(), length);
}

#[test]
fn digit_passphrase_with_special_characters() {
    let picks = vec![
        SpecialPick { symbol: 4, position: 4 },
        SpecialPick { symbol: 5, position: 0 },
        SpecialPick { symbol: 6, position: 7 },
    ];
    let digits = vec![0, 1, 2, 3, 4, 5, 6];
    let passphrase = assemble_passphrase(five_words(), &picks, &digits, SeparatorKind::Digit);
    assert_eq!(passphrase, "&0apple1banana2cherry3date4%5elder6'");
    let length: usize = five_words().iter().map(|w| w.len()).sum::<usize>() + 3 + 7;
    assert_eq!(passphrase.len(), length);
}

#[test]
fn capitalized_words_keep_special_characters_and_digits() {
    let table = small_table();
    let rolls = strings(&["11111", "11112", "11113", "11114", "11115"]);
    let picks = vec![
        SpecialPick { symbol: 0, position: 2 },
        SpecialPick { symbol: 21, position: 2 },
        SpecialPick { symbol: 30, position: 0 },
    ];
    let digits = vec![8, 7, 6, 5, 4, 3, 2];
    let plain = assemble_passphrase(
        select_words(&table, &rolls, false).unwrap(),
        &picks,
        &digits,
        SeparatorKind::Digit,
    );
    let capital = assemble_passphrase(
        select_words(&table, &rolls, true).unwrap(),
        &picks,
        &digits,
        SeparatorKind::Digit,
    );
    assert_eq!(plain, "}8apple7banana6@5!4cherry3date2elder");
    assert_eq!(capital, "}8Apple7Banana6@5!4Cherry3Date2Elder");
}

#[test]
fn words_with_hyphens_are_joined_like_any_other() {
    let words = strings(&["a-b", "c", "d", "e", "f"]);
    let passphrase = assemble_passphrase(words, &Vec::new(), &Vec::new(), SeparatorKind::Hyphen);
    assert_eq!(passphrase, "a-b-c-d-e-f");
}
