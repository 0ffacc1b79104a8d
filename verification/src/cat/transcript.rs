//! The model of a whole run: what is written to the two output streams,
//! and where the line counter ends, given what each input turned out to
//! hold.

use vstd::prelude::*;
use crate::cat::config::ConfigView;
use crate::cat::format::counter_after;
use crate::cat::format::formatted;

verus! {

/// What became of one input, as plain mathematical values.
pub enum OutcomeView {
    /// The input could not be opened, for the given reason.
    OpenFailed(Seq<char>),
    /// The input was read to its end and held these lines.
    Complete(Seq<Seq<char>>),
    /// These lines were read, then reading failed for the given reason.
    ReadFailed(Seq<Seq<char>>, Seq<char>),
}

impl OutcomeView {
    /// The lines that were read from the input.
    pub open spec fn lines(self) -> Seq<Seq<char>> {
        match self {
            OutcomeView::OpenFailed(_) => Seq::empty(),
            OutcomeView::Complete(lines) => lines,
            OutcomeView::ReadFailed(lines, _) => lines,
        }
    }

    /// The reason for which the input failed, if it did.
    pub open spec fn failure(self) -> Option<Seq<char>> {
        match self {
            OutcomeView::OpenFailed(reason) => Some(reason),
            OutcomeView::Complete(_) => None,
            OutcomeView::ReadFailed(_, reason) => Some(reason),
        }
    }
}

/// What became of one input: whether it could be opened, the lines that
/// were read from it, and whether reading ended in a failure.
#[derive(Debug, PartialEq, Eq)]
pub enum Outcome {
    /// The input could not be opened, for the given reason.
    OpenFailed(String),
    /// The input was read to its end and held these lines.
    Complete(Vec<String>),
    /// These lines were read, then reading failed for the given reason.
    ReadFailed(Vec<String>, String),
}

impl View for Outcome {
    type V = OutcomeView;

    open spec fn view(&self) -> OutcomeView {
        match self {
            Outcome::OpenFailed(reason) => OutcomeView::OpenFailed(reason@),
            Outcome::Complete(lines) => OutcomeView::Complete(lines.deep_view()),
            Outcome::ReadFailed(lines, reason) => OutcomeView::ReadFailed(
                lines.deep_view(),
                reason@,
            ),
        }
    }
}

impl DeepView for Outcome {
    type V = OutcomeView;

    open spec fn deep_view(&self) -> OutcomeView {
        self@
    }
}

/// What a run, or a part of one, wrote and counted.
pub struct Transcript {
    /// The lines written to standard output, in order, without terminators.
    pub stdout: Seq<Seq<char>>,
    /// The lines written to standard error, in order, without terminators.
    pub stderr: Seq<Seq<char>>,
    /// The number of lines numbered so far.
    pub counter: nat,
}

impl Transcript {
    /// The transcript of a run that has done nothing yet but inherit a
    /// counter.
    pub open spec fn starting_at(counter: nat) -> Transcript {
        Transcript { stdout: Seq::empty(), stderr: Seq::empty(), counter }
    }

    /// This transcript continued by `next`, which started from this
    /// one's counter.
    pub open spec fn followed_by(self, next: Transcript) -> Transcript {
        Transcript {
            stdout: self.stdout + next.stdout,
            stderr: self.stderr + next.stderr,
            counter: next.counter,
        }
    }
}

/// The line that reports a failed input: the identifier, a colon, a
/// space and the reason.
pub open spec fn diagnostic(identifier: Seq<char>, reason: Seq<char>) -> Seq<char> {
    identifier + seq![':', ' '] + reason
}

/// The value of the line counter after `lines`, where it was `counter`
/// before them.
pub open spec fn counter_after_lines(config: ConfigView, lines: Seq<Seq<char>>, counter: nat) -> nat
    decreases lines.len(),
{
    if lines.len() == 0 {
        counter
    } else {
        counter_after(
            config,
            lines.last(),
            counter_after_lines(config, lines.drop_last(), counter),
        )
    }
}

/// The output lines for `lines`, where `counter` lines were numbered
/// before them.
pub open spec fn lines_formatted(config: ConfigView, lines: Seq<Seq<char>>, counter: nat) -> Seq<
    Seq<char>,
>
    decreases lines.len(),
{
    if lines.len() == 0 {
        Seq::empty()
    } else {
        lines_formatted(config, lines.drop_last(), counter).push(
            formatted(
                config,
                lines.last(),
                counter_after_lines(config, lines.drop_last(), counter),
            ),
        )
    }
}

/// What processing one input writes and counts: its lines, formatted, go
/// to standard output; if it failed, one diagnostic goes to standard
/// error.
pub open spec fn input_transcript(
    config: ConfigView,
    identifier: Seq<char>,
    outcome: OutcomeView,
    counter: nat,
) -> Transcript {
    Transcript {
        stdout: lines_formatted(config, outcome.lines(), counter),
        stderr: match outcome.failure() {
            Some(reason) => seq![diagnostic(identifier, reason)],
            None => Seq::empty(),
        },
        counter: counter_after_lines(config, outcome.lines(), counter),
    }
}

/// What a run over `identifiers` writes and counts, where `outcomes`
/// says what became of each of them and the counter starts at `counter`.
/// The inputs are processed in order, each starting from the counter that
/// the one before it left.
pub open spec fn run_transcript(
    config: ConfigView,
    identifiers: Seq<Seq<char>>,
    outcomes: Seq<OutcomeView>,
    counter: nat,
) -> Transcript
    recommends
        identifiers.len() == outcomes.len(),
    decreases outcomes.len(),
{
    if outcomes.len() == 0 {
        Transcript::starting_at(counter)
    } else {
        let before = run_transcript(config, identifiers.drop_last(), outcomes.drop_last(), counter);
        before.followed_by(
            input_transcript(config, identifiers.last(), outcomes.last(), before.counter),
        )
    }
}

/// The counter never goes down over a sequence of lines.
pub proof fn lemma_counter_after_lines_grows(
    config: ConfigView,
    lines: Seq<Seq<char>>,
    counter: nat,
    upto: int,
)
    requires
        0 <= upto <= lines.len(),
    ensures
        counter <= counter_after_lines(config, lines.take(upto), counter) <= counter_after_lines(
            config,
            lines,
            counter,
        ),
    decreases lines.len(),
{
    if lines.len() == 0 {
        assert(lines.take(upto) == lines);
    } else if upto == lines.len() {
        assert(lines.take(upto) == lines);
        lemma_counter_after_lines_grows(config, lines.drop_last(), counter, 0);
        assert(lines.drop_last().take(0).len() == 0);
    } else {
        lemma_counter_after_lines_grows(config, lines.drop_last(), counter, upto);
        assert(lines.drop_last().take(upto) == lines.take(upto));
    }
}

/// The counter never goes down over a sequence of inputs.
pub proof fn lemma_run_counter_grows(
    config: ConfigView,
    identifiers: Seq<Seq<char>>,
    outcomes: Seq<OutcomeView>,
    counter: nat,
    upto: int,
)
    requires
        identifiers.len() == outcomes.len(),
        0 <= upto <= outcomes.len(),
    ensures
        counter <= run_transcript(
            config,
            identifiers.take(upto),
            outcomes.take(upto),
            counter,
        ).counter <= run_transcript(config, identifiers, outcomes, counter).counter,
    decreases outcomes.len(),
{
    if outcomes.len() == 0 {
        assert(outcomes.take(upto) == outcomes);
        assert(identifiers.take(upto) == identifiers);
    } else if upto == outcomes.len() {
        assert(outcomes.take(upto) == outcomes);
        assert(identifiers.take(upto) == identifiers);
        lemma_run_counter_grows(config, identifiers.drop_last(), outcomes.drop_last(), counter, 0);
        assert(outcomes.drop_last().take(0).len() == 0);
        let before = run_transcript(config, identifiers.drop_last(), outcomes.drop_last(), counter);
        let lines = outcomes.last().lines();
        lemma_counter_after_lines_grows(config, lines, before.counter, 0);
        assert(lines.take(0).len() == 0);
    } else {
        lemma_run_counter_grows(
            config,
            identifiers.drop_last(),
            outcomes.drop_last(),
            counter,
            upto,
        );
        assert(outcomes.drop_last().take(upto) == outcomes.take(upto));
        assert(identifiers.drop_last().take(upto) == identifiers.take(upto));
        let before = run_transcript(config, identifiers.drop_last(), outcomes.drop_last(), counter);
        let lines = outcomes.last().lines();
        lemma_counter_after_lines_grows(config, lines, before.counter, 0);
        assert(lines.take(0).len() == 0);
    }
}

} // verus!
