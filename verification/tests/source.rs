use password_generator::source::first_source_step;
use password_generator::source::get_wordlist_data_path;
use password_generator::source::next_source_step;
use password_generator::source::SourceDecision;
use password_generator::source::SourceStep;
use password_generator::source::StepOutcome;
use password_generator::source::DICEWARE_URL;
use password_generator::source::WORDLIST_FILENAME;
use password_generator::GenerationError;

const STEPS: [SourceStep; 6] = [
    SourceStep::ResolveDirectory,
    SourceStep::ProbeDirectory,
    SourceStep::CreateDirectory,
    SourceStep::ProbeCache,
    SourceStep::Download,
    SourceStep::ReadCache,
];

const OUTCOMES: [StepOutcome; 4] =
    [StepOutcome::Present, StepOutcome::Missing, StepOutcome::Done, StepOutcome::Failed];

const ABORT: SourceDecision = SourceDecision::Abort(GenerationError::AcquisitionFailure);

/// Walks from the first step to the end; each step ends as `outcome_of` says.
fn walk(outcome_of: fn(SourceStep) -> StepOutcome) -> (Vec<SourceStep>, SourceDecision) {
    let mut taken = Vec::new();
    let mut step = first_source_step();
    loop {
        taken.push(step);
        assert!(taken.len() <= 6);
        match next_source_step(step, outcome_of(step)) {
            SourceDecision::Continue(next) => step = next,
            end => return (taken, end),
        }
    }
}

#[test]
fn wordlist_path_joins_directory_separator_and_name() {
    assert_eq!(get_wordlist_data_path("/home/u/.local/share/pg", '/'), "/home/u/.local/share/pg/wordlist");
    assert_eq!(get_wordlist_data_path("C:\\data", '\\'), "C:\\data\\wordlist");
    assert_eq!(get_wordlist_data_path("", '/'), "/wordlist");
}

#[test]
fn wordlist_name_and_address() {
    assert_eq!(WORDLIST_FILENAME, "wordlist");
    assert_eq!(DICEWARE_URL, "https://theworld.com/~reinhold/diceware.wordlist.asc");
}

#[test]
fn acquisition_starts_by_resolving_the_directory() {
    assert_eq!(first_source_step(), SourceStep::ResolveDirectory);
}

#[test]
fn first_run_creates_downloads_and_reads() {
    let (taken, end) = walk(|step| match step {
        SourceStep::ProbeDirectory | SourceStep::ProbeCache => StepOutcome::Missing,
        _ => StepOutcome::Done,
    });
    assert_eq!(taken, STEPS.to_vec());
    assert_eq!(end, SourceDecision::Deliver);
}

#[test]
fn cached_wordlist_is_read_without_download() {
    let (taken, end) = walk(|step| match step {
        SourceStep::ProbeDirectory | SourceStep::ProbeCache => StepOutcome::Present,
        _ => StepOutcome::Done,
    });
    assert_eq!(
        taken,
        vec![
            SourceStep::ResolveDirectory,
            SourceStep::ProbeDirectory,
            SourceStep::ProbeCache,
            SourceStep::ReadCache,
        ]
    );
    assert_eq!(end, SourceDecision::Deliver);
}

#[test]
fn existing_directory_without_file_downloads() {
    let (taken, end) = walk(|step| match step {
        SourceStep::ProbeDirectory => StepOutcome::Present,
        SourceStep::ProbeCache => StepOutcome::Missing,
        _ => StepOutcome::Done,
    });
    assert_eq!(
        taken,
        vec![
            SourceStep::ResolveDirectory,
            SourceStep::ProbeDirectory,
            SourceStep::ProbeCache,
            SourceStep::Download,
            SourceStep::ReadCache,
        ]
    );
    assert_eq!(end, SourceDecision::Deliver);
}

#[test]
fn failed_download_is_an_acquisition_failure() {
    let (taken, end) = walk(|step| match step {
        SourceStep::ProbeDirectory => StepOutcome::Present,
        SourceStep::ProbeCache => StepOutcome::Missing,
        SourceStep::Download => StepOutcome::Failed,
        _ => StepOutcome::Done,
    });
    assert_eq!(taken.last(), Some(&SourceStep::Download));
    assert_eq!(end, ABORT);
}

#[test]
fn any_failed_step_is_an_acquisition_failure() {
    for step in STEPS {
        assert_eq!(next_source_step(step, StepOutcome::Failed), ABORT);
    }
}

#[test]
fn outcome_that_a_step_cannot_have_ends_the_acquisition() {
    assert_eq!(next_source_step(SourceStep::ResolveDirectory, StepOutcome::Present), ABORT);
    assert_eq!(next_source_step(SourceStep::ResolveDirectory, StepOutcome::Missing), ABORT);
    assert_eq!(next_source_step(SourceStep::ProbeDirectory, StepOutcome::Done), ABORT);
    assert_eq!(next_source_step(SourceStep::CreateDirectory, StepOutcome::Present), ABORT);
    assert_eq!(next_source_step(SourceStep::CreateDirectory, StepOutcome::Missing), ABORT);
    assert_eq!(next_source_step(SourceStep::ProbeCache, StepOutcome::Done), ABORT);
    assert_eq!(next_source_step(SourceStep::Download, StepOutcome::Present), ABORT);
    assert_eq!(next_source_step(SourceStep::Download, StepOutcome::Missing), ABORT);
    assert_eq!(next_source_step(SourceStep::ReadCache, StepOutcome::Present), ABORT);
    assert_eq!(next_source_step(SourceStep::ReadCache, StepOutcome::Missing), ABORT);
}

#[test]
fn each_step_is_followed_as_the_table_says() {
    let go = SourceDecision::Continue;
    assert_eq!(next_source_step(SourceStep::ResolveDirectory, StepOutcome::Done), go(SourceStep::ProbeDirectory));
    assert_eq!(next_source_step(SourceStep::ProbeDirectory, StepOutcome::Present), go(SourceStep::ProbeCache));
    assert_eq!(next_source_step(SourceStep::ProbeDirectory, StepOutcome::Missing), go(SourceStep::CreateDirectory));
    assert_eq!(next_source_step(SourceStep::CreateDirectory, StepOutcome::Done), go(SourceStep::ProbeCache));
    assert_eq!(next_source_step(SourceStep::ProbeCache, StepOutcome::Present), go(SourceStep::ReadCache));
    assert_eq!(next_source_step(SourceStep::ProbeCache, StepOutcome::Missing), go(SourceStep::Download));
    assert_eq!(next_source_step(SourceStep::Download, StepOutcome::Done), go(SourceStep::ReadCache));
    assert_eq!(next_source_step(SourceStep::ReadCache, StepOutcome::Done), SourceDecision::Deliver);
}

#[test]
fn no_step_leads_back() {
    for (place, step) in STEPS.iter().enumerate() {
        for outcome in OUTCOMES {
            if let SourceDecision::Continue(next) = next_source_step(*step, outcome) {
                let next_place = STEPS.iter().position(|s| *s == next).unwrap();
                assert!(next_place > place);
            }
        }
    }
}
