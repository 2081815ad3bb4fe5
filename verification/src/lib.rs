//! Diceware passphrases: five dice rolls pick five words from a wordlist, and
//! the words are joined with hyphens or random digits, optionally capitalised
//! and sprinkled with punctuation.

pub mod assemble;
pub mod dice;
pub mod generate;
pub mod kinds;
pub mod laws;
pub mod pattern;
pub mod random;
pub mod source;
pub mod text;
pub mod wordlist;

pub use kinds::GenerationError;
pub use kinds::SeparatorKind;
pub use generate::generate_passphrase;
