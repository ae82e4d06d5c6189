//! What is left of a batch of work items that fail one by one: the results
//! of those that succeeded, and a count of the others by cause.
use vstd::prelude::*;

verus! {

/// The causes for which a work item gives no result.
#[derive(Clone, Copy, Debug, PartialEq, Eq, Hash, Structural)]
pub enum Cause {
    /// The page could not be fetched.
    Transport,
    /// The page did not hold what was looked for.
    MalformedDocument,
    /// The dictionary knows too few definitions of the abbreviation.
    InsufficientAnswers,
    /// The abbreviation was taken up before in this run.
    Duplicate,
}

/// Why a work item gave no result.
#[derive(Clone, Debug, PartialEq, Eq)]
pub enum Failure {
    /// The page could not be fetched.
    Transport,
    /// The page did not hold what was looked for.
    MalformedDocument,
    /// The dictionary knows only `found` definitions of the abbreviation,
    /// fewer than an answer set holds.
    InsufficientAnswers { abbreviation: String, found: usize },
    /// The abbreviation was taken up before in this run.
    Duplicate,
}

impl Failure {
    /// The cause of this failure.
    pub open spec fn cause_of(self) -> Cause {
        match self {
            Failure::Transport => Cause::Transport,
            Failure::MalformedDocument => Cause::MalformedDocument,
            Failure::InsufficientAnswers { .. } => Cause::InsufficientAnswers,
            Failure::Duplicate => Cause::Duplicate,
        }
    }

    /// Gives the cause of this failure.
    pub fn cause(&self) -> (cause: Cause)
        ensures
            cause == self.cause_of(),
    {
        match self {
            Failure::Transport => Cause::Transport,
            Failure::MalformedDocument => Cause::MalformedDocument,
            Failure::InsufficientAnswers { .. } => Cause::InsufficientAnswers,
            Failure::Duplicate => Cause::Duplicate,
        }
    }
}

/// How a batch ended: the number of items, of those that succeeded, and of
/// those that failed for each cause.
#[derive(Clone, Copy, Debug, PartialEq, Eq, Structural)]
pub struct Tally {
    pub attempted: usize,
    pub succeeded: usize,
    pub transport: usize,
    pub malformed: usize,
    pub insufficient: usize,
    pub duplicate: usize,
}

/// The results of the items that succeeded, in the order of the items.
pub open spec fn successes_of<T>(outcomes: Seq<Result<T, Failure>>) -> Seq<T>
    decreases outcomes.len(),
{
    if outcomes.len() == 0 {
        Seq::empty()
    } else {
        let rest = successes_of(outcomes.drop_last());
        match outcomes.last() {
            Ok(value) => rest.push(value),
            Err(_) => rest,
        }
    }
}

/// The number of items that failed for `cause`.
pub open spec fn failures_of<T>(outcomes: Seq<Result<T, Failure>>, cause: Cause) -> nat
    decreases outcomes.len(),
{
    if outcomes.len() == 0 {
        0
    } else {
        let rest = failures_of(outcomes.drop_last(), cause);
        match outcomes.last() {
            Err(failure) if failure.cause_of() == cause => rest + 1,
            _ => rest,
        }
    }
}

/// `tally` counts the outcomes of a batch.
pub open spec fn is_tally_of<T>(outcomes: Seq<Result<T, Failure>>, tally: Tally) -> bool {
    &&& tally.attempted == outcomes.len()
    &&& tally.succeeded == successes_of(outcomes).len()
    &&& tally.transport == failures_of(outcomes, Cause::Transport)
    &&& tally.malformed == failures_of(outcomes, Cause::MalformedDocument)
    &&& tally.insufficient == failures_of(outcomes, Cause::InsufficientAnswers)
    &&& tally.duplicate == failures_of(outcomes, Cause::Duplicate)
}

/// Every item of a batch either succeeded or failed for one of the four
/// causes, so the counts add up to the number of items.
pub proof fn lemma_outcomes_add_up<T>(outcomes: Seq<Result<T, Failure>>)
    ensures
        outcomes.len() == successes_of(outcomes).len() + failures_of(outcomes, Cause::Transport)
            + failures_of(outcomes, Cause::MalformedDocument) + failures_of(
            outcomes,
            Cause::InsufficientAnswers,
        ) + failures_of(outcomes, Cause::Duplicate),
    decreases outcomes.len(),
{
    if outcomes.len() > 0 {
        lemma_outcomes_add_up(outcomes.drop_last());
        match outcomes.last() {
            Ok(_) => {},
            Err(Failure::Transport) => {},
            Err(Failure::MalformedDocument) => {},
            Err(Failure::InsufficientAnswers { .. }) => {},
            Err(Failure::Duplicate) => {},
        }
    }
}

/// The counts of a tally add up to the number of items.
pub proof fn lemma_tally_adds_up<T>(outcomes: Seq<Result<T, Failure>>, tally: Tally)
    requires
        is_tally_of(outcomes, tally),
    ensures
        tally.attempted == tally.succeeded + tally.transport + tally.malformed
            + tally.insufficient + tally.duplicate,
{
    lemma_outcomes_add_up(outcomes);
}

/// Keeps the results of the items that succeeded and drops the others.
pub fn successes<T>(outcomes: Vec<Result<T, Failure>>) -> (kept: Vec<T>)
    ensures
        kept@ == successes_of(outcomes@),
{
    let mut kept: Vec<T> = Vec::new();
    for outcome in it: outcomes.into_iter()
        invariant
            it.seq() == outcomes@,
            kept@ == successes_of(it.seq().take(it.index())),
    {
        proof {
            let done = it.seq().take(it.index() + 1);
            assert(done.drop_last() =~= it.seq().take(it.index()));
            assert(done.last() == outcome);
        }
        match outcome {
            Ok(value) => {
                kept.push(value);
            },
            Err(_) => {},
        }
    }
    assert(outcomes@.take(outcomes@.len() as int) =~= outcomes@);
    kept
}

/// Counts the outcomes of a batch.
pub fn tally<T>(outcomes: &Vec<Result<T, Failure>>) -> (counts: Tally)
    ensures
        is_tally_of(outcomes@, counts),
{
    let mut counts = Tally {
        attempted: 0,
        succeeded: 0,
        transport: 0,
        malformed: 0,
        insufficient: 0,
        duplicate: 0,
    };
    let mut i: usize = 0;
    while i < outcomes.len()
        invariant
            i <= outcomes.len(),
            counts.attempted == i,
            is_tally_of(outcomes@.take(i as int), counts),
        decreases outcomes.len() - i,
    {
        proof {
            let done = outcomes@.take(i + 1);
            assert(done.drop_last() =~= outcomes@.take(i as int));
            assert(done.last() == outcomes@[i as int]);
            lemma_outcomes_add_up(outcomes@.take(i as int));
        }
        match &outcomes[i] {
            Ok(_) => {
                counts.succeeded += 1;
            },
            Err(Failure::Transport) => {
                counts.transport += 1;
            },
            Err(Failure::MalformedDocument) => {
                counts.malformed += 1;
            },
            Err(Failure::InsufficientAnswers { .. }) => {
                counts.insufficient += 1;
            },
            Err(Failure::Duplicate) => {
                counts.duplicate += 1;
            },
        }
        counts.attempted += 1;
        i += 1;
    }
    assert(outcomes@.take(outcomes@.len() as int) =~= outcomes@);
    counts
}

} // verus!
