//! Getting hold of the wordlist: where it is kept, and what to do next.
//!
//! The wordlist is fetched once and kept in a file. Touching the disk and the
//! network is the caller's work; what is decided here is the order of the
//! steps, that the download happens only where the file is missing, and that
//! a step that fails ends it all.

use crate::kinds::GenerationError;
use vstd::prelude::*;
use vstd::string::StringExecFns;

verus! {

/// Where the wordlist is fetched from.
pub const DICEWARE_URL: &'static str = "https://theworld.com/~reinhold/diceware.wordlist.asc";

/// The name of the file that keeps the wordlist.
pub const WORDLIST_FILENAME: &'static str = "wordlist";

/// The path of the wordlist file in `data_dir`.
pub open spec fn wordlist_path(data_dir: Seq<char>, separator: char) -> Seq<char> {
    data_dir.push(separator) + WORDLIST_FILENAME@
}

/// The path of the wordlist file in `data_dir`: the directory, the path
/// separator of the platform, and the file's name.
pub fn get_wordlist_data_path(data_dir: &str, separator: char) -> (r: String)
    ensures
        r@ == wordlist_path(data_dir@, separator),
{
    let mut path = String::from_str(data_dir);
    path.push(separator);
    path.append(WORDLIST_FILENAME);
    path
}

/// One step on the way to the wordlist text.
#[derive(Clone, Copy, Debug, PartialEq, Eq)]
pub enum SourceStep {
    /// Find out which directory holds the program's data.
    ResolveDirectory,
    /// Look whether that directory exists.
    ProbeDirectory,
    /// Create the directory and the directories above it.
    CreateDirectory,
    /// Look whether the wordlist file exists.
    ProbeCache,
    /// Fetch the wordlist and write it to the file.
    Download,
    /// Read the file.
    ReadCache,
}

/// How a step ended.
#[derive(Clone, Copy, Debug, PartialEq, Eq)]
pub enum StepOutcome {
    /// A probe found what it looked for.
    Present,
    /// A probe found nothing.
    Missing,
    /// The work of the step is done.
    Done,
    /// The step could not be carried out.
    Failed,
}

/// What follows a step.
#[derive(Clone, Copy, Debug, PartialEq, Eq)]
pub enum SourceDecision {
    /// Take this step next.
    Continue(SourceStep),
    /// The text that was read is the wordlist.
    Deliver,
    /// Give up with this error.
    Abort(GenerationError),
}

/// The step that every acquisition starts with.
pub open spec fn first_step() -> SourceStep {
    SourceStep::ResolveDirectory
}

/// What follows `step` when it ended with `outcome`. A missing directory is
/// created, a missing file is downloaded, and what is there is left alone. An
/// outcome that the step cannot have ends the acquisition like a failure.
pub open spec fn decided(step: SourceStep, outcome: StepOutcome) -> SourceDecision {
    match (step, outcome) {
        (SourceStep::ResolveDirectory, StepOutcome::Done) => SourceDecision::Continue(
            SourceStep::ProbeDirectory,
        ),
        (SourceStep::ProbeDirectory, StepOutcome::Present) => SourceDecision::Continue(
            SourceStep::ProbeCache,
        ),
        (SourceStep::ProbeDirectory, StepOutcome::Missing) => SourceDecision::Continue(
            SourceStep::CreateDirectory,
        ),
        (SourceStep::CreateDirectory, StepOutcome::Done) => SourceDecision::Continue(
            SourceStep::ProbeCache,
        ),
        (SourceStep::ProbeCache, StepOutcome::Present) => SourceDecision::Continue(
            SourceStep::ReadCache,
        ),
        (SourceStep::ProbeCache, StepOutcome::Missing) => SourceDecision::Continue(
            SourceStep::Download,
        ),
        (SourceStep::Download, StepOutcome::Done) => SourceDecision::Continue(
            SourceStep::ReadCache,
        ),
        (SourceStep::ReadCache, StepOutcome::Done) => SourceDecision::Deliver,
        _ => SourceDecision::Abort(GenerationError::AcquisitionFailure),
    }
}

/// The step to begin with.
pub fn first_source_step() -> (r: SourceStep)
    ensures
        r == first_step(),
{
    SourceStep::ResolveDirectory
}

/// Decides what follows `step` when it ended with `outcome`.
pub fn next_source_step(step: SourceStep, outcome: StepOutcome) -> (r: SourceDecision)
    ensures
        r == decided(step, outcome),
{
    match step {
        SourceStep::ResolveDirectory => match outcome {
            StepOutcome::Done => SourceDecision::Continue(SourceStep::ProbeDirectory),
            _ => SourceDecision::Abort(GenerationError::AcquisitionFailure),
        },
        SourceStep::ProbeDirectory => match outcome {
            StepOutcome::Present => SourceDecision::Continue(SourceStep::ProbeCache),
            StepOutcome::Missing => SourceDecision::Continue(SourceStep::CreateDirectory),
            _ => SourceDecision::Abort(GenerationError::AcquisitionFailure),
        },
        SourceStep::CreateDirectory => match outcome {
            StepOutcome::Done => SourceDecision::Continue(SourceStep::ProbeCache),
            _ => SourceDecision::Abort(GenerationError::AcquisitionFailure),
        },
        SourceStep::ProbeCache => match outcome {
            StepOutcome::Present => SourceDecision::Continue(SourceStep::ReadCache),
            StepOutcome::Missing => SourceDecision::Continue(SourceStep::Download),
            _ => SourceDecision::Abort(GenerationError::AcquisitionFailure),
        },
        SourceStep::Download => match outcome {
            StepOutcome::Done => SourceDecision::Continue(SourceStep::ReadCache),
            _ => SourceDecision::Abort(GenerationError::AcquisitionFailure),
        },
        SourceStep::ReadCache => match outcome {
            StepOutcome::Done => SourceDecision::Deliver,
            _ => SourceDecision::Abort(GenerationError::AcquisitionFailure),
        },
    }
}

/// How many steps can still follow `step`.
pub open spec fn steps_left(step: SourceStep) -> nat {
    match step {
        SourceStep::ResolveDirectory => 5,
        SourceStep::ProbeDirectory => 4,
        SourceStep::CreateDirectory => 3,
        SourceStep::ProbeCache => 2,
        SourceStep::Download => 1,
        SourceStep::ReadCache => 0,
    }
}

/// No step is taken twice and nothing is retried: each step that follows
/// leaves fewer steps than the one before, so that an acquisition ends after
/// six steps at most.
pub proof fn lemma_acquisition_ends(step: SourceStep, outcome: StepOutcome)
    ensures
        decided(step, outcome) matches SourceDecision::Continue(next) ==> steps_left(next)
            < steps_left(step),
{
}

/// What is there is left alone. A download follows only the probe that found
/// no wordlist file, the directory is created only after the probe that found
/// none, and a text is delivered only when the file was read.
pub proof fn lemma_no_needless_work(step: SourceStep, outcome: StepOutcome)
    ensures
        decided(step, outcome) == SourceDecision::Continue(SourceStep::Download) <==> step
            == SourceStep::ProbeCache && outcome == StepOutcome::Missing,
        decided(step, outcome) == SourceDecision::Continue(SourceStep::CreateDirectory) <==> step
            == SourceStep::ProbeDirectory && outcome == StepOutcome::Missing,
        decided(step, outcome) == SourceDecision::Deliver <==> step == SourceStep::ReadCache
            && outcome == StepOutcome::Done,
        outcome == StepOutcome::Failed ==> decided(step, outcome) == SourceDecision::Abort(
            GenerationError::AcquisitionFailure,
        ),
{
}

} // verus!
