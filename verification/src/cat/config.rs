//! The configuration of one run.

use vstd::prelude::*;
use vstd::string::StringExecFns;

verus! {

/// The identifier that stands for standard input: a single hyphen.
pub open spec fn stdin_sentinel() -> Seq<char> {
    seq!['-']
}

/// What a configuration says, as plain mathematical values.
pub struct ConfigView {
    /// The input identifiers, in the order in which they are processed.
    pub files: Seq<Seq<char>>,
    /// Every line gets a number.
    pub number_lines: bool,
    /// Every non-empty line gets a number.
    pub number_nonblank_lines: bool,
    /// Every line gets a `$` at its end.
    pub show_ends: bool,
    /// Every tab is shown as `^I`.
    pub show_tabs: bool,
}

impl ConfigView {
    /// A configuration names at least one input and asks for at most one
    /// of the two kinds of numbering.
    pub open spec fn wf(self) -> bool {
        &&& self.files.len() > 0
        &&& !(self.number_lines && self.number_nonblank_lines)
    }

    /// The configuration that the given options describe. Without any
    /// identifier the input is standard input; where both kinds of
    /// numbering are asked for, numbering of non-empty lines wins.
    pub open spec fn from_options(
        files: Seq<Seq<char>>,
        number: bool,
        number_nonblank: bool,
        show_ends: bool,
        show_tabs: bool,
    ) -> ConfigView {
        ConfigView {
            files: if files.len() == 0 {
                seq![stdin_sentinel()]
            } else {
                files
            },
            number_lines: number && !number_nonblank,
            number_nonblank_lines: number_nonblank,
            show_ends,
            show_tabs,
        }
    }
}

/// The configuration of one run: the inputs and the four formatting
/// options. Every value of this type is well formed.
#[derive(Debug)]
pub struct Config {
    files: Vec<String>,
    number_lines: bool,
    number_nonblank_lines: bool,
    show_ends: bool,
    show_tabs: bool,
}

impl View for Config {
    type V = ConfigView;

    closed spec fn view(&self) -> ConfigView {
        ConfigView {
            files: self.files.deep_view(),
            number_lines: self.number_lines,
            number_nonblank_lines: self.number_nonblank_lines,
            show_ends: self.show_ends,
            show_tabs: self.show_tabs,
        }
    }
}

impl Config {
    #[verifier::type_invariant]
    spec fn inv(self) -> bool {
        self@.wf()
    }

    /// Builds the configuration that the options describe.
    pub fn new(
        files: Vec<String>,
        number: bool,
        number_nonblank: bool,
        show_ends: bool,
        show_tabs: bool,
    ) -> (config: Config)
        ensures
            config@ == ConfigView::from_options(
                files.deep_view(),
                number,
                number_nonblank,
                show_ends,
                show_tabs,
            ),
            config@.wf(),
    {
        let mut files = files;
        if files.len() == 0 {
            let sentinel = String::from_str("-");
            proof {
                reveal_strlit("-");
                assert(sentinel@ =~= stdin_sentinel());
            }
            files.push(sentinel);
            assert(files.deep_view() =~= seq![stdin_sentinel()]);
        }
        Config {
            files,
            number_lines: number && !number_nonblank,
            number_nonblank_lines: number_nonblank,
            show_ends,
            show_tabs,
        }
    }

    /// The input identifiers, in the order in which they are processed.
    pub fn files(&self) -> (files: &Vec<String>)
        ensures
            files.deep_view() == self@.files,
            self@.wf(),
    {
        proof {
            use_type_invariant(self);
        }
        &self.files
    }

    /// Whether every line gets a number.
    pub fn number_lines(&self) -> (on: bool)
        ensures
            on == self@.number_lines,
    {
        self.number_lines
    }

    /// Whether every non-empty line gets a number.
    pub fn number_nonblank_lines(&self) -> (on: bool)
        ensures
            on == self@.number_nonblank_lines,
    {
        self.number_nonblank_lines
    }

    /// Whether every line gets a `$` at its end.
    pub fn show_ends(&self) -> (on: bool)
        ensures
            on == self@.show_ends,
    {
        self.show_ends
    }

    /// Whether every tab is shown as `^I`.
    pub fn show_tabs(&self) -> (on: bool)
        ensures
            on == self@.show_tabs,
    {
        self.show_tabs
    }
}

} // verus!
