//! The two small vocabularies of the library: how tokens are joined, and how a
//! generation can fail.

use vstd::prelude::*;

verus! {

/// How the tokens of a passphrase are joined.
#[derive(Clone, Copy, Debug, PartialEq, Eq, Structural)]
pub enum SeparatorKind {
    /// A random digit between each pair of neighbouring tokens.
    Digit,
    /// A literal `-` between each pair of neighbouring tokens.
    Hyphen,
}

/// Why no passphrase was produced. Every failure is final: nothing is retried
/// and no partial passphrase is handed out.
#[derive(Clone, Copy, Debug, PartialEq, Eq, Structural)]
pub enum GenerationError {
    /// The wordlist could not be fetched or read.
    AcquisitionFailure,
    /// A roll has no word in the table: the wordlist is incomplete or corrupt.
    IntegrityFailure,
    /// The regex engine turned the line pattern down.
    PatternFailure,
    /// The operating system gave no entropy to seed a generator with.
    EntropyFailure,
}

impl GenerationError {
    /// A sentence for the user.
    pub fn message(&self) -> (r: &'static str)
        ensures
            r@ == self.spec_message(),
    {
        match self {
            GenerationError::AcquisitionFailure => "the wordlist could not be fetched or read",
            GenerationError::IntegrityFailure => "the wordlist has no word for a roll",
            GenerationError::PatternFailure => "the wordlist line pattern was rejected",
            GenerationError::EntropyFailure => "the operating system gave no entropy",
        }
    }

    /// The text of [`GenerationError::message`].
    pub open spec fn spec_message(&self) -> Seq<char> {
        match self {
            GenerationError::AcquisitionFailure => "the wordlist could not be fetched or read"@,
            GenerationError::IntegrityFailure => "the wordlist has no word for a roll"@,
            GenerationError::PatternFailure => "the wordlist line pattern was rejected"@,
            GenerationError::EntropyFailure => "the operating system gave no entropy"@,
        }
    }
}

} // verus!
