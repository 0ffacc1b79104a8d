//! What holds of every run: how lines are numbered across inputs, that
//! runs compose, and that a failed input leaves the others alone.

use vstd::prelude::*;
use crate::cat::config::ConfigView;
use crate::cat::format::content;
use crate::cat::format::counter_after;
use crate::cat::format::end_marker;
use crate::cat::format::formatted;
use crate::cat::format::number_prefix;
use crate::cat::transcript::counter_after_lines;
use crate::cat::transcript::diagnostic;
use crate::cat::transcript::lines_formatted;
use crate::cat::transcript::run_transcript;
use crate::cat::transcript::OutcomeView;

verus! {

/// All the lines that were read in a run, in the order in which they
/// were read.
pub open spec fn lines_read(outcomes: Seq<OutcomeView>) -> Seq<Seq<char>>
    decreases outcomes.len(),
{
    if outcomes.len() == 0 {
        Seq::empty()
    } else {
        lines_read(outcomes.drop_last()) + outcomes.last().lines()
    }
}

/// The number of lines among `lines` that are not empty.
pub open spec fn nonblank_count(lines: Seq<Seq<char>>) -> nat
    decreases lines.len(),
{
    if lines.len() == 0 {
        0
    } else if lines.last().len() > 0 {
        nonblank_count(lines.drop_last()) + 1
    } else {
        nonblank_count(lines.drop_last())
    }
}

/// Formatting two sequences of lines one after the other, the second
/// from the counter that the first left, is formatting them as one.
pub proof fn lemma_lines_compose(
    config: ConfigView,
    first: Seq<Seq<char>>,
    second: Seq<Seq<char>>,
    counter: nat,
)
    ensures
        counter_after_lines(config, first + second, counter) == counter_after_lines(
            config,
            second,
            counter_after_lines(config, first, counter),
        ),
        lines_formatted(config, first + second, counter) == lines_formatted(
            config,
            first,
            counter,
        ) + lines_formatted(config, second, counter_after_lines(config, first, counter)),
    decreases second.len(),
{
    if second.len() == 0 {
        assert(first + second == first);
    } else {
        lemma_lines_compose(config, first, second.drop_last(), counter);
        assert((first + second).drop_last() == first + second.drop_last());
        assert((first + second).last() == second.last());
    }
}

/// The output of a sequence of lines has one line for each.
pub proof fn lemma_one_line_out_per_line(config: ConfigView, lines: Seq<Seq<char>>, counter: nat)
    ensures
        lines_formatted(config, lines, counter).len() == lines.len(),
    decreases lines.len(),
{
    if lines.len() > 0 {
        lemma_one_line_out_per_line(config, lines.drop_last(), counter);
    }
}

/// The output of a sequence of lines has one line for each, and each is
/// formatted with the counter that the lines before it left.
pub proof fn lemma_line_of_lines(
    config: ConfigView,
    lines: Seq<Seq<char>>,
    counter: nat,
    k: int,
)
    requires
        0 <= k < lines.len(),
    ensures
        lines_formatted(config, lines, counter).len() == lines.len(),
        lines_formatted(config, lines, counter)[k] == formatted(
            config,
            lines[k],
            counter_after_lines(config, lines.take(k), counter),
        ),
    decreases lines.len(),
{
    lemma_one_line_out_per_line(config, lines, counter);
    lemma_one_line_out_per_line(config, lines.drop_last(), counter);
    if k == lines.len() - 1 {
        assert(lines.take(k) == lines.drop_last());
    } else {
        lemma_line_of_lines(config, lines.drop_last(), counter, k);
        assert(lines.drop_last().take(k) == lines.take(k));
    }
}

/// A run treats the lines of all its inputs as one stream: its standard
/// output and its counter are those of the lines read, taken together.
pub proof fn lemma_run_is_one_stream(
    config: ConfigView,
    identifiers: Seq<Seq<char>>,
    outcomes: Seq<OutcomeView>,
    counter: nat,
)
    ensures
        run_transcript(config, identifiers, outcomes, counter).stdout == lines_formatted(
            config,
            lines_read(outcomes),
            counter,
        ),
        run_transcript(config, identifiers, outcomes, counter).counter == counter_after_lines(
            config,
            lines_read(outcomes),
            counter,
        ),
    decreases outcomes.len(),
{
    if outcomes.len() > 0 {
        lemma_run_is_one_stream(config, identifiers.drop_last(), outcomes.drop_last(), counter);
        lemma_lines_compose(
            config,
            lines_read(outcomes.drop_last()),
            outcomes.last().lines(),
            counter,
        );
    }
}

/// With numbering of all lines, every line advances the counter.
pub proof fn lemma_counter_counts_lines(config: ConfigView, lines: Seq<Seq<char>>, counter: nat)
    requires
        config.number_lines,
    ensures
        counter_after_lines(config, lines, counter) == counter + lines.len(),
    decreases lines.len(),
{
    if lines.len() > 0 {
        lemma_counter_counts_lines(config, lines.drop_last(), counter);
    }
}

/// With numbering of non-empty lines, exactly the non-empty lines advance
/// the counter.
pub proof fn lemma_counter_counts_nonblank_lines(
    config: ConfigView,
    lines: Seq<Seq<char>>,
    counter: nat,
)
    requires
        config.wf(),
        config.number_nonblank_lines,
    ensures
        counter_after_lines(config, lines, counter) == counter + nonblank_count(lines),
    decreases lines.len(),
{
    if lines.len() > 0 {
        lemma_counter_counts_nonblank_lines(config, lines.drop_last(), counter);
    }
}

/// The counter advances by at most one for each line.
pub proof fn lemma_counter_advance_bounded(config: ConfigView, lines: Seq<Seq<char>>, counter: nat)
    ensures
        counter_after_lines(config, lines, counter) <= counter + lines.len(),
    decreases lines.len(),
{
    if lines.len() > 0 {
        lemma_counter_advance_bounded(config, lines.drop_last(), counter);
    }
}

/// A run numbers no more lines than it reads: its counter ends at most
/// that many above where it started.
pub proof fn lemma_run_counter_bounded(
    config: ConfigView,
    identifiers: Seq<Seq<char>>,
    outcomes: Seq<OutcomeView>,
    counter: nat,
)
    ensures
        run_transcript(config, identifiers, outcomes, counter).counter <= counter + lines_read(
            outcomes,
        ).len(),
{
    lemma_run_is_one_stream(config, identifiers, outcomes, counter);
    lemma_counter_advance_bounded(config, lines_read(outcomes), counter);
}

/// Numbering of all lines: a run that starts at 0 writes one line for
/// each line read, and the line at place `k`, counted from 0 across all
/// inputs, carries the number `k + 1`, whatever the input it came from.
pub proof fn lemma_all_lines_numbered_in_sequence(
    config: ConfigView,
    identifiers: Seq<Seq<char>>,
    outcomes: Seq<OutcomeView>,
    k: int,
)
    requires
        config.number_lines,
        identifiers.len() == outcomes.len(),
        0 <= k < lines_read(outcomes).len(),
    ensures
        run_transcript(config, identifiers, outcomes, 0).stdout.len() == lines_read(
            outcomes,
        ).len(),
        run_transcript(config, identifiers, outcomes, 0).stdout[k] == number_prefix((k + 1) as nat)
            + content(lines_read(outcomes)[k], config.show_tabs) + end_marker(config.show_ends),
        run_transcript(config, identifiers, outcomes, 0).counter == lines_read(outcomes).len(),
{
    let lines = lines_read(outcomes);
    lemma_run_is_one_stream(config, identifiers, outcomes, 0);
    lemma_line_of_lines(config, lines, 0, k);
    lemma_counter_counts_lines(config, lines.take(k), 0);
    lemma_counter_counts_lines(config, lines, 0);
}

/// Numbering of non-empty lines: in a run that starts at 0, an empty
/// line is written without a number and leaves the counter as it is; a
/// line that is not empty carries the number of non-empty lines read up
/// to and including it, across all inputs.
pub proof fn lemma_nonblank_lines_numbered_in_sequence(
    config: ConfigView,
    identifiers: Seq<Seq<char>>,
    outcomes: Seq<OutcomeView>,
    k: int,
)
    requires
        config.wf(),
        config.number_nonblank_lines,
        identifiers.len() == outcomes.len(),
        0 <= k < lines_read(outcomes).len(),
    ensures
        run_transcript(config, identifiers, outcomes, 0).stdout.len() == lines_read(
            outcomes,
        ).len(),
        lines_read(outcomes)[k].len() == 0 ==> {
            &&& run_transcript(config, identifiers, outcomes, 0).stdout[k] == end_marker(
                config.show_ends,
            )
            &&& nonblank_count(lines_read(outcomes).take(k + 1)) == nonblank_count(
                lines_read(outcomes).take(k),
            )
        },
        lines_read(outcomes)[k].len() > 0 ==> {
            &&& run_transcript(config, identifiers, outcomes, 0).stdout[k] == number_prefix(
                nonblank_count(lines_read(outcomes).take(k + 1)),
            ) + content(lines_read(outcomes)[k], config.show_tabs) + end_marker(config.show_ends)
            &&& nonblank_count(lines_read(outcomes).take(k + 1)) == nonblank_count(
                lines_read(outcomes).take(k),
            ) + 1
        },
        run_transcript(config, identifiers, outcomes, 0).counter == nonblank_count(
            lines_read(outcomes),
        ),
{
    let lines = lines_read(outcomes);
    lemma_run_is_one_stream(config, identifiers, outcomes, 0);
    lemma_line_of_lines(config, lines, 0, k);
    lemma_counter_counts_nonblank_lines(config, lines.take(k), 0);
    lemma_counter_counts_nonblank_lines(config, lines, 0);
    assert(lines.take(k + 1).drop_last() == lines.take(k));
    assert(lines.take(k + 1).last() == lines[k]);
    if lines[k].len() == 0 {
        assert(content(lines[k], config.show_tabs) =~= Seq::<char>::empty());
        assert(formatted(config, lines[k], nonblank_count(lines.take(k))) =~= end_marker(
            config.show_ends,
        ));
    }
}

/// Without any option a line is written as it was read, and the counter
/// stays as it is.
pub proof fn lemma_plain_line_unchanged(config: ConfigView, raw: Seq<char>, counter: nat)
    requires
        !config.number_lines,
        !config.number_nonblank_lines,
        !config.show_ends,
        !config.show_tabs,
    ensures
        formatted(config, raw, counter) == raw,
        counter_after(config, raw, counter) == counter,
{
    assert(formatted(config, raw, counter) =~= raw);
}

/// Without any option a run writes to standard output the lines that it
/// read, as they were.
pub proof fn lemma_plain_run_copies(
    config: ConfigView,
    identifiers: Seq<Seq<char>>,
    outcomes: Seq<OutcomeView>,
    counter: nat,
)
    requires
        !config.number_lines,
        !config.number_nonblank_lines,
        !config.show_ends,
        !config.show_tabs,
    ensures
        run_transcript(config, identifiers, outcomes, counter).stdout == lines_read(outcomes),
        run_transcript(config, identifiers, outcomes, counter).counter == counter,
{
    lemma_run_is_one_stream(config, identifiers, outcomes, counter);
    lemma_plain_lines_copied(config, lines_read(outcomes), counter);
}

/// Without any option a sequence of lines is written as it was read.
pub proof fn lemma_plain_lines_copied(config: ConfigView, lines: Seq<Seq<char>>, counter: nat)
    requires
        !config.number_lines,
        !config.number_nonblank_lines,
        !config.show_ends,
        !config.show_tabs,
    ensures
        lines_formatted(config, lines, counter) == lines,
        counter_after_lines(config, lines, counter) == counter,
    decreases lines.len(),
{
    if lines.len() > 0 {
        lemma_plain_lines_copied(config, lines.drop_last(), counter);
        lemma_plain_line_unchanged(config, lines.last(), counter);
        assert(lines.drop_last().push(lines.last()) == lines);
    } else {
        assert(lines_formatted(config, lines, counter) =~= lines);
    }
}

/// Runs compose: a run over two lists of inputs, one after the other, is
/// the run over the first list followed by the run over the second list
/// that starts from the counter that the first one left.
pub proof fn lemma_runs_compose(
    config: ConfigView,
    first_identifiers: Seq<Seq<char>>,
    first_outcomes: Seq<OutcomeView>,
    second_identifiers: Seq<Seq<char>>,
    second_outcomes: Seq<OutcomeView>,
    counter: nat,
)
    requires
        first_identifiers.len() == first_outcomes.len(),
        second_identifiers.len() == second_outcomes.len(),
    ensures
        run_transcript(
            config,
            first_identifiers + second_identifiers,
            first_outcomes + second_outcomes,
            counter,
        ) == run_transcript(config, first_identifiers, first_outcomes, counter).followed_by(
            run_transcript(
                config,
                second_identifiers,
                second_outcomes,
                run_transcript(config, first_identifiers, first_outcomes, counter).counter,
            ),
        ),
    decreases second_outcomes.len(),
{
    let first = run_transcript(config, first_identifiers, first_outcomes, counter);
    let second = run_transcript(config, second_identifiers, second_outcomes, first.counter);
    let whole = run_transcript(
        config,
        first_identifiers + second_identifiers,
        first_outcomes + second_outcomes,
        counter,
    );
    if second_outcomes.len() == 0 {
        assert(first_outcomes + second_outcomes == first_outcomes);
        assert(first_identifiers + second_identifiers == first_identifiers);
        assert(whole.stdout =~= first.followed_by(second).stdout);
        assert(whole.stderr =~= first.followed_by(second).stderr);
    } else {
        lemma_runs_compose(
            config,
            first_identifiers,
            first_outcomes,
            second_identifiers.drop_last(),
            second_outcomes.drop_last(),
            counter,
        );
        assert((first_outcomes + second_outcomes).drop_last() == first_outcomes
            + second_outcomes.drop_last());
        assert((first_identifiers + second_identifiers).drop_last() == first_identifiers
            + second_identifiers.drop_last());
        assert((first_outcomes + second_outcomes).last() == second_outcomes.last());
        assert((first_identifiers + second_identifiers).last() == second_identifiers.last());
        assert(whole.stdout =~= first.followed_by(second).stdout);
        assert(whole.stderr =~= first.followed_by(second).stderr);
    }
}

/// An input that cannot be opened is isolated: with it anywhere in the
/// list, the run writes to standard output what it writes without it and
/// leaves the counter where it leaves it without it. On standard error
/// the failure is reported between what the inputs before it and the
/// inputs after it gave rise to.
pub proof fn lemma_unreadable_input_is_isolated(
    config: ConfigView,
    before_identifiers: Seq<Seq<char>>,
    before_outcomes: Seq<OutcomeView>,
    unreadable: Seq<char>,
    reason: Seq<char>,
    after_identifiers: Seq<Seq<char>>,
    after_outcomes: Seq<OutcomeView>,
    counter: nat,
)
    requires
        before_identifiers.len() == before_outcomes.len(),
        after_identifiers.len() == after_outcomes.len(),
    ensures
        ({
            let with = run_transcript(
                config,
                before_identifiers.push(unreadable) + after_identifiers,
                before_outcomes.push(OutcomeView::OpenFailed(reason)) + after_outcomes,
                counter,
            );
            let without = run_transcript(
                config,
                before_identifiers + after_identifiers,
                before_outcomes + after_outcomes,
                counter,
            );
            let before = run_transcript(config, before_identifiers, before_outcomes, counter);
            let after = run_transcript(config, after_identifiers, after_outcomes, before.counter);
            &&& with.stdout == without.stdout
            &&& with.counter == without.counter
            &&& with.stderr == before.stderr.push(diagnostic(unreadable, reason)) + after.stderr
            &&& without.stderr == before.stderr + after.stderr
        }),
{
    let failed = OutcomeView::OpenFailed(reason);
    let before = run_transcript(config, before_identifiers, before_outcomes, counter);
    let upto = run_transcript(
        config,
        before_identifiers.push(unreadable),
        before_outcomes.push(failed),
        counter,
    );
    assert(before_identifiers.push(unreadable).drop_last() == before_identifiers);
    assert(before_outcomes.push(failed).drop_last() == before_outcomes);
    assert(upto.stdout =~= before.stdout);
    assert(upto.stderr =~= before.stderr.push(diagnostic(unreadable, reason)));
    assert(upto.counter == before.counter);
    lemma_runs_compose(
        config,
        before_identifiers.push(unreadable),
        before_outcomes.push(failed),
        after_identifiers,
        after_outcomes,
        counter,
    );
    lemma_runs_compose(
        config,
        before_identifiers,
        before_outcomes,
        after_identifiers,
        after_outcomes,
        counter,
    );
}

/// A source whose reading fails keeps the lines that were read before
/// the failure: standard output and counter are those of the same lines
/// read to their end.
pub proof fn lemma_read_failure_keeps_lines(
    config: ConfigView,
    identifiers: Seq<Seq<char>>,
    outcomes: Seq<OutcomeView>,
    lines: Seq<Seq<char>>,
    reason: Seq<char>,
    identifier: Seq<char>,
    counter: nat,
)
    requires
        identifiers.len() == outcomes.len(),
    ensures
        run_transcript(
            config,
            identifiers.push(identifier),
            outcomes.push(OutcomeView::ReadFailed(lines, reason)),
            counter,
        ).stdout == run_transcript(
            config,
            identifiers.push(identifier),
            outcomes.push(OutcomeView::Complete(lines)),
            counter,
        ).stdout,
        run_transcript(
            config,
            identifiers.push(identifier),
            outcomes.push(OutcomeView::ReadFailed(lines, reason)),
            counter,
        ).counter == run_transcript(
            config,
            identifiers.push(identifier),
            outcomes.push(OutcomeView::Complete(lines)),
            counter,
        ).counter,
{
    assert(identifiers.push(identifier).drop_last() == identifiers);
    assert(outcomes.push(OutcomeView::ReadFailed(lines, reason)).drop_last() == outcomes);
    assert(outcomes.push(OutcomeView::Complete(lines)).drop_last() == outcomes);
}

} // verus!
