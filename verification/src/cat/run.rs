//! A whole run over inputs that are held in memory.

use vstd::prelude::*;
use crate::cat::config::Config;
use crate::cat::driver::Driver;
use crate::cat::driver::DriverView;
use crate::cat::driver::Event;
use crate::cat::driver::Output;
use crate::cat::driver::OutputView;
use crate::cat::transcript::counter_after_lines;
use crate::cat::transcript::input_transcript;
use crate::cat::transcript::lemma_counter_after_lines_grows;
use crate::cat::transcript::lemma_run_counter_grows;
use crate::cat::transcript::lines_formatted;
use crate::cat::transcript::run_transcript;
use crate::cat::transcript::Outcome;
use crate::cat::transcript::Transcript;

verus! {

/// What a run wrote and counted.
#[derive(Debug, PartialEq, Eq)]
pub struct Report {
    /// The lines written to standard output, in order, without terminators.
    pub stdout: Vec<String>,
    /// The lines written to standard error, in order, without terminators.
    pub stderr: Vec<String>,
    /// The number of lines that were numbered.
    pub counter: u64,
}

impl View for Report {
    type V = Transcript;

    open spec fn view(&self) -> Transcript {
        Transcript {
            stdout: self.stdout.deep_view(),
            stderr: self.stderr.deep_view(),
            counter: self.counter as nat,
        }
    }
}

/// Puts what the driver handed back at the end of the stream it is for.
fn record(output: Output, stdout: &mut Vec<String>, stderr: &mut Vec<String>)
    ensures
        final(stdout).deep_view() == (match output@ {
            OutputView::Line(line) => old(stdout).deep_view().push(line),
            _ => old(stdout).deep_view(),
        }),
        final(stderr).deep_view() == (match output@ {
            OutputView::Diagnostic(line) => old(stderr).deep_view().push(line),
            _ => old(stderr).deep_view(),
        }),
{
    match output {
        Output::Nothing => {},
        Output::Line(line) => {
            stdout.push(line);
            assert(stdout.deep_view() =~= old(stdout).deep_view().push(line@));
        },
        Output::Diagnostic(line) => {
            stderr.push(line);
            assert(stderr.deep_view() =~= old(stderr).deep_view().push(line@));
        },
    }
}

/// Hands the driver the lines of an open source, one by one, and
/// records what it hands back.
fn feed_lines(
    driver: &mut Driver,
    lines: &Vec<String>,
    stdout: &mut Vec<String>,
    stderr: &mut Vec<String>,
)
    requires
        old(driver)@.wf(),
        old(driver)@.reading,
        counter_after_lines(old(driver)@.config, lines.deep_view(), old(driver)@.counter)
            <= u64::MAX,
    ensures
        final(driver)@ == (DriverView {
            counter: counter_after_lines(
                old(driver)@.config,
                lines.deep_view(),
                old(driver)@.counter,
            ),
            ..old(driver)@
        }),
        final(stdout).deep_view() == old(stdout).deep_view() + lines_formatted(
            old(driver)@.config,
            lines.deep_view(),
            old(driver)@.counter,
        ),
        final(stderr).deep_view() == old(stderr).deep_view(),
{
    let ghost start = driver@;
    let ghost raw = lines.deep_view();
    let mut done: usize = 0;
    while done < lines.len()
        invariant
            done <= lines.len(),
            raw == lines.deep_view(),
            start.wf(),
            start.reading,
            counter_after_lines(start.config, raw, start.counter) <= u64::MAX,
            driver@ == (DriverView {
                counter: counter_after_lines(start.config, raw.take(done as int), start.counter),
                ..start
            }),
            stdout.deep_view() == old(stdout).deep_view() + lines_formatted(
                start.config,
                raw.take(done as int),
                start.counter,
            ),
            stderr.deep_view() == old(stderr).deep_view(),
        decreases lines.len() - done,
    {
        proof {
            let next = raw.take(done + 1);
            assert(next.drop_last() == raw.take(done as int));
            assert(next.last() == lines[done as int]@);
            lemma_counter_after_lines_grows(start.config, raw, start.counter, done + 1);
        }
        let output = driver.step(Event::Line(lines[done].as_str()));
        record(output, stdout, stderr);
        done = done + 1;
    }
    assert(raw.take(done as int) == raw);
}

/// Takes the driver through one input: the opening, the lines and the
/// end or the failure, as `outcome` has them, and records what the driver
/// hands back at each step.
fn feed_input(
    driver: &mut Driver,
    outcome: &Outcome,
    stdout: &mut Vec<String>,
    stderr: &mut Vec<String>,
)
    requires
        old(driver)@.wf(),
        !old(driver)@.finished(),
        !old(driver)@.reading,
        counter_after_lines(old(driver)@.config, outcome@.lines(), old(driver)@.counter)
            <= u64::MAX,
    ensures
        final(driver)@ == (DriverView {
            position: old(driver)@.position + 1,
            counter: input_transcript(
                old(driver)@.config,
                old(driver)@.identifier(),
                outcome@,
                old(driver)@.counter,
            ).counter,
            ..old(driver)@
        }),
        final(stdout).deep_view() == old(stdout).deep_view() + input_transcript(
            old(driver)@.config,
            old(driver)@.identifier(),
            outcome@,
            old(driver)@.counter,
        ).stdout,
        final(stderr).deep_view() == old(stderr).deep_view() + input_transcript(
            old(driver)@.config,
            old(driver)@.identifier(),
            outcome@,
            old(driver)@.counter,
        ).stderr,
{
    match outcome {
        Outcome::OpenFailed(reason) => {
            let reported = driver.step(Event::OpenFailed(reason.as_str()));
            record(reported, stdout, stderr);
        },
        Outcome::Complete(lines) => {
            let opened = driver.step(Event::Opened);
            record(opened, stdout, stderr);
            feed_lines(driver, lines, stdout, stderr);
            let closed = driver.step(Event::EndOfInput);
            record(closed, stdout, stderr);
        },
        Outcome::ReadFailed(lines, reason) => {
            let opened = driver.step(Event::Opened);
            record(opened, stdout, stderr);
            feed_lines(driver, lines, stdout, stderr);
            let reported = driver.step(Event::ReadFailed(reason.as_str()));
            record(reported, stdout, stderr);
        },
    }
}

/// Runs over inputs that are held in memory: `outcomes` says, for each
/// identifier of the configuration in turn, what became of it. Returns
/// what such a run writes to its two streams and the number of lines that
/// it numbered. An input that failed is reported and the run goes on.
pub fn run(config: Config, outcomes: &Vec<Outcome>) -> (report: Report)
    requires
        outcomes.len() == config@.files.len(),
        run_transcript(config@, config@.files, outcomes.deep_view(), 0).counter <= u64::MAX,
    ensures
        report@ == run_transcript(config@, config@.files, outcomes.deep_view(), 0),
{
    let ghost settings = config@;
    let ghost identifiers = config@.files;
    let ghost all = outcomes.deep_view();
    let mut driver = Driver::new(config);
    let mut stdout: Vec<String> = Vec::new();
    let mut stderr: Vec<String> = Vec::new();
    let mut done: usize = 0;
    assert(stdout.deep_view() =~= Seq::empty());
    assert(stderr.deep_view() =~= Seq::empty());
    while done < outcomes.len()
        invariant
            done <= outcomes.len(),
            all == outcomes.deep_view(),
            identifiers == settings.files,
            identifiers.len() == all.len(),
            run_transcript(settings, identifiers, all, 0).counter <= u64::MAX,
            driver@ == (DriverView {
                position: done as nat,
                counter: driver@.counter,
                ..DriverView::initial(settings)
            }),
            driver@.wf(),
            (Transcript {
                stdout: stdout.deep_view(),
                stderr: stderr.deep_view(),
                counter: driver@.counter,
            }) == run_transcript(
                settings,
                identifiers.take(done as int),
                all.take(done as int),
                0,
            ),
        decreases outcomes.len() - done,
    {
        proof {
            assert(all.take(done + 1).drop_last() == all.take(done as int));
            assert(identifiers.take(done + 1).drop_last() == identifiers.take(done as int));
            assert(all.take(done + 1).last() == outcomes[done as int]@);
            assert(identifiers.take(done + 1).last() == driver@.identifier());
            lemma_run_counter_grows(settings, identifiers, all, 0, done + 1);
        }
        feed_input(&mut driver, &outcomes[done], &mut stdout, &mut stderr);
        done = done + 1;
    }
    assert(all.take(done as int) == all);
    assert(identifiers.take(done as int) == identifiers);
    Report { stdout, stderr, counter: driver.counter() }
}

} // verus!
