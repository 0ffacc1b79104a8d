//! The run driver as a state machine. The driver decides; its caller
//! does the work on files and streams: it carries out the request of the
//! driver, tells it what happened, and writes what the driver hands back.

use vstd::prelude::*;
use vstd::string::StringExecFns;
use vstd::string::StrSliceExecFns;
use crate::cat::config::stdin_sentinel;
use crate::cat::config::Config;
use crate::cat::config::ConfigView;
use crate::cat::format::counter_after;
use crate::cat::format::format_line;
use crate::cat::format::formatted;
use crate::cat::transcript::diagnostic;

verus! {

/// Where the lines of an input come from, as plain mathematical values.
pub enum SourceView {
    /// The standard input of the process.
    StandardInput,
    /// The file of the given name.
    File(Seq<char>),
}

/// Where the lines of an input come from.
#[derive(Debug, PartialEq, Eq)]
pub enum Source {
    /// The standard input of the process.
    StandardInput,
    /// The file of the given name.
    File(String),
}

impl View for Source {
    type V = SourceView;

    open spec fn view(&self) -> SourceView {
        match self {
            Source::StandardInput => SourceView::StandardInput,
            Source::File(name) => SourceView::File(name@),
        }
    }
}

/// The source that an identifier denotes: standard input for the
/// sentinel, the file of that name for every other identifier.
pub open spec fn resolved(identifier: Seq<char>) -> SourceView {
    if identifier == stdin_sentinel() {
        SourceView::StandardInput
    } else {
        SourceView::File(identifier)
    }
}

/// Tells which source an identifier denotes. Nothing is opened or read.
pub fn resolve(identifier: &str) -> (source: Source)
    ensures
        source@ == resolved(identifier@),
{
    if identifier.unicode_len() == 1 && identifier.get_char(0) == '-' {
        assert(identifier@ =~= stdin_sentinel());
        Source::StandardInput
    } else {
        Source::File(identifier.to_owned())
    }
}

/// What the driver asks its caller to do next, as plain mathematical
/// values.
pub enum RequestView {
    /// Release the source that was read, if any, and open this one.
    Open(SourceView),
    /// Read the next line of the open source.
    ReadLine,
    /// Release the source that was read, if any, and stop.
    Finish,
}

/// What the driver asks its caller to do next.
#[derive(Debug, PartialEq, Eq)]
pub enum Request {
    /// Release the source that was read, if any, and open this one. The
    /// answer is `Event::Opened` or `Event::OpenFailed`.
    Open(Source),
    /// Read the next line of the open source. The answer is
    /// `Event::Line`, `Event::EndOfInput` or `Event::ReadFailed`.
    ReadLine,
    /// Release the source that was read, if any, and stop: every
    /// identifier has been processed.
    Finish,
}

impl View for Request {
    type V = RequestView;

    open spec fn view(&self) -> RequestView {
        match self {
            Request::Open(source) => RequestView::Open(source@),
            Request::ReadLine => RequestView::ReadLine,
            Request::Finish => RequestView::Finish,
        }
    }
}

/// What happened when the caller carried out a request, as plain
/// mathematical values.
pub enum EventView {
    /// The source was opened.
    Opened,
    /// The source could not be opened, for the given reason.
    OpenFailed(Seq<char>),
    /// The next line was read; this is its content without terminator.
    Line(Seq<char>),
    /// The source has no further line.
    EndOfInput,
    /// Reading the next line failed, for the given reason.
    ReadFailed(Seq<char>),
}

/// What happened when the caller carried out a request.
#[derive(Debug)]
pub enum Event<'a> {
    /// The source was opened.
    Opened,
    /// The source could not be opened, for the given reason.
    OpenFailed(&'a str),
    /// The next line was read; this is its content without terminator.
    Line(&'a str),
    /// The source has no further line.
    EndOfInput,
    /// Reading the next line failed, for the given reason.
    ReadFailed(&'a str),
}

impl<'a> View for Event<'a> {
    type V = EventView;

    open spec fn view(&self) -> EventView {
        match self {
            Event::Opened => EventView::Opened,
            Event::OpenFailed(reason) => EventView::OpenFailed(reason@),
            Event::Line(raw) => EventView::Line(raw@),
            Event::EndOfInput => EventView::EndOfInput,
            Event::ReadFailed(reason) => EventView::ReadFailed(reason@),
        }
    }
}

/// What the caller writes after an event, as plain mathematical values.
pub enum OutputView {
    /// Nothing is written.
    Nothing,
    /// This line goes to standard output.
    Line(Seq<char>),
    /// This line goes to standard error.
    Diagnostic(Seq<char>),
}

/// What the caller writes after an event. The caller adds the line
/// terminator.
#[derive(Debug, PartialEq, Eq)]
pub enum Output {
    /// Nothing is written.
    Nothing,
    /// This line goes to standard output.
    Line(String),
    /// This line goes to standard error.
    Diagnostic(String),
}

impl View for Output {
    type V = OutputView;

    open spec fn view(&self) -> OutputView {
        match self {
            Output::Nothing => OutputView::Nothing,
            Output::Line(line) => OutputView::Line(line@),
            Output::Diagnostic(line) => OutputView::Diagnostic(line@),
        }
    }
}

/// The state of a run, as plain mathematical values.
pub struct DriverView {
    /// The configuration of the run.
    pub config: ConfigView,
    /// The number of identifiers that are done with.
    pub position: nat,
    /// Whether the identifier at `position` is open and being read.
    pub reading: bool,
    /// The number of lines numbered so far.
    pub counter: nat,
}

impl DriverView {
    /// The state before anything has happened: the first identifier is
    /// about to be opened and no line has been numbered.
    pub open spec fn initial(config: ConfigView) -> DriverView {
        DriverView { config, position: 0, reading: false, counter: 0 }
    }

    /// The position lies within the identifiers or just behind them, a
    /// source is read only while its identifier is the current one, and
    /// the counter is one that the driver can hold.
    pub open spec fn wf(self) -> bool {
        &&& self.config.wf()
        &&& self.position <= self.config.files.len()
        &&& self.reading ==> self.position < self.config.files.len()
        &&& self.counter <= u64::MAX
    }

    /// Whether every identifier has been processed.
    pub open spec fn finished(self) -> bool {
        self.position >= self.config.files.len()
    }

    /// The identifier that is being processed.
    pub open spec fn identifier(self) -> Seq<char>
        recommends
            !self.finished(),
    {
        self.config.files[self.position as int]
    }

    /// What the caller has to do in this state.
    pub open spec fn request(self) -> RequestView {
        if self.finished() {
            RequestView::Finish
        } else if self.reading {
            RequestView::ReadLine
        } else {
            RequestView::Open(resolved(self.identifier()))
        }
    }

    /// Whether `event` answers the request of this state.
    pub open spec fn accepts(self, event: EventView) -> bool {
        !self.finished() && match event {
            EventView::Opened | EventView::OpenFailed(_) => !self.reading,
            EventView::Line(_) | EventView::EndOfInput | EventView::ReadFailed(_) => self.reading,
        }
    }

    /// What is written when `event` arrives in this state: a line that
    /// was read goes to standard output, formatted; a failure is reported
    /// on standard error under the name of the identifier.
    pub open spec fn output(self, event: EventView) -> OutputView {
        match event {
            EventView::Opened | EventView::EndOfInput => OutputView::Nothing,
            EventView::Line(raw) => OutputView::Line(formatted(self.config, raw, self.counter)),
            EventView::OpenFailed(reason) | EventView::ReadFailed(reason) => OutputView::Diagnostic(
                diagnostic(self.identifier(), reason),
            ),
        }
    }

    /// The state that follows when `event` arrives in this state. A line
    /// advances the counter if it is numbered; the end of a source, and
    /// every failure, move on to the next identifier and leave the counter
    /// as it is.
    pub open spec fn after(self, event: EventView) -> DriverView {
        match event {
            EventView::Opened => DriverView { reading: true, ..self },
            EventView::Line(raw) => DriverView {
                counter: counter_after(self.config, raw, self.counter),
                ..self
            },
            EventView::EndOfInput | EventView::OpenFailed(_) | EventView::ReadFailed(_) => DriverView {
                position: self.position + 1,
                reading: false,
                ..self
            },
        }
    }

    /// Whether `event` would take the counter beyond what the driver can
    /// hold.
    pub open spec fn overflows(self, event: EventView) -> bool {
        self.after(event).counter > u64::MAX
    }
}

/// Builds the line that reports a failed input.
fn diagnostic_line(identifier: &str, reason: &str) -> (line: String)
    ensures
        line@ == diagnostic(identifier@, reason@),
{
    let mut line = identifier.to_owned();
    proof {
        reveal_strlit(": ");
        assert(": "@ =~= seq![':', ' ']);
    }
    line.append(": ");
    line.append(reason);
    line
}

/// The run driver: it goes through the identifiers of its configuration
/// in order and keeps the line counter of the whole run.
#[derive(Debug)]
pub struct Driver {
    config: Config,
    position: usize,
    reading: bool,
    counter: u64,
}

impl View for Driver {
    type V = DriverView;

    closed spec fn view(&self) -> DriverView {
        DriverView {
            config: self.config@,
            position: self.position as nat,
            reading: self.reading,
            counter: self.counter as nat,
        }
    }
}

impl Driver {
    #[verifier::type_invariant]
    spec fn inv(self) -> bool {
        self@.wf()
    }

    /// Starts a run: the first identifier is about to be opened and the
    /// counter is 0.
    pub fn new(config: Config) -> (driver: Driver)
        ensures
            driver@ == DriverView::initial(config@),
            driver@.wf(),
    {
        // The accessor states that the configuration is well formed.
        let _ = config.files();
        Driver { config, position: 0, reading: false, counter: 0 }
    }

    /// What the caller has to do next.
    pub fn request(&self) -> (request: Request)
        ensures
            request@ == self@.request(),
    {
        proof {
            use_type_invariant(self);
        }
        let files = self.config.files();
        if self.position >= files.len() {
            Request::Finish
        } else if self.reading {
            Request::ReadLine
        } else {
            assert(files.deep_view()[self.position as int] == files[self.position as int]@);
            Request::Open(resolve(files[self.position].as_str()))
        }
    }

    /// The number of lines numbered so far.
    pub fn counter(&self) -> (counter: u64)
        ensures
            counter == self@.counter,
    {
        self.counter
    }

    /// Whether `event` answers the pending request and leaves the counter
    /// within what the driver can hold: whether `step` may be called with
    /// it.
    pub fn accepts(&self, event: &Event) -> (ok: bool)
        ensures
            ok == (self@.accepts(event@) && !self@.overflows(event@)),
    {
        proof {
            use_type_invariant(self);
        }
        if self.position >= self.config.files().len() {
            return false;
        }
        match event {
            Event::Opened | Event::OpenFailed(_) => !self.reading,
            Event::EndOfInput | Event::ReadFailed(_) => self.reading,
            Event::Line(raw) => {
                let number = self.config.number_lines() || (self.config.number_nonblank_lines()
                    && !raw.is_empty());
                self.reading && !(number && self.counter == u64::MAX)
            },
        }
    }

    /// Takes in what happened when the caller carried out the pending
    /// request, moves to the next state and hands back what the caller
    /// has to write.
    pub fn step(&mut self, event: Event) -> (output: Output)
        requires
            old(self)@.accepts(event@),
            !old(self)@.overflows(event@),
        ensures
            final(self)@ == old(self)@.after(event@),
            final(self)@.wf(),
            output@ == old(self)@.output(event@),
    {
        proof {
            use_type_invariant(&*self);
        }
        let identifiers = self.config.files();
        assert(self.position < identifiers.len());
        match event {
            Event::Opened => {
                self.reading = true;
                Output::Nothing
            },
            Event::Line(raw) => {
                let mut counter = self.counter;
                let (line, _) = format_line(raw, &mut counter, &self.config);
                self.counter = counter;
                Output::Line(line)
            },
            Event::EndOfInput => {
                self.reading = false;
                self.position = self.position + 1;
                Output::Nothing
            },
            Event::OpenFailed(reason) | Event::ReadFailed(reason) => {
                assert(identifiers.deep_view()[self.position as int]
                    == identifiers[self.position as int]@);
                let line = diagnostic_line(identifiers[self.position].as_str(), reason);
                self.reading = false;
                self.position = self.position + 1;
                Output::Diagnostic(line)
            },
        }
    }
}

} // verus!
