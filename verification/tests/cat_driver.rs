use lineutils::cat::config::Config;
use lineutils::cat::driver::resolve;
use lineutils::cat::driver::Driver;
use lineutils::cat::driver::Event;
use lineutils::cat::driver::Output;
use lineutils::cat::driver::Request;
use lineutils::cat::driver::Source;

fn driver(files: &[&str], number: bool, number_nonblank: bool) -> Driver {
    let names: Vec<String> = files.iter().map(|n| n.to_string()).collect();
    Driver::new(Config::new(names, number, number_nonblank, false, false))
}

#[test]
fn hyphen_is_standard_input() {
    assert_eq!(resolve("-"), Source::StandardInput);
}

#[test]
fn other_identifiers_are_files() {
    assert_eq!(resolve("notes.txt"), Source::File("notes.txt".to_string()));
    assert_eq!(resolve("--"), Source::File("--".to_string()));
    assert_eq!(resolve("-x"), Source::File("-x".to_string()));
    assert_eq!(resolve(""), Source::File(String::new()));
    assert_eq!(resolve("+"), Source::File("+".to_string()));
    assert_eq!(resolve("–"), Source::File("–".to_string()));
}

#[test]
fn driver_asks_for_the_first_identifier() {
    let d = driver(&["one", "-"], false, false);
    assert_eq!(d.request(), Request::Open(Source::File("one".to_string())));
    assert_eq!(d.counter(), 0);
}

#[test]
fn driver_without_files_asks_for_standard_input() {
    let d = driver(&[], false, false);
    assert_eq!(d.request(), Request::Open(Source::StandardInput));
}

#[test]
fn driver_walks_through_a_file() {
    let mut d = driver(&["one", "-"], true, false);
    assert_eq!(d.step(Event::Opened), Output::Nothing);
    assert_eq!(d.request(), Request::ReadLine);
    assert_eq!(d.step(Event::Line("a")), Output::Line("     1\ta".to_string()));
    assert_eq!(d.request(), Request::ReadLine);
    assert_eq!(d.step(Event::Line("")), Output::Line("     2\t".to_string()));
    assert_eq!(d.counter(), 2);
    assert_eq!(d.step(Event::EndOfInput), Output::Nothing);
    assert_eq!(d.request(), Request::Open(Source::StandardInput));
    assert_eq!(d.step(Event::Opened), Output::Nothing);
    assert_eq!(d.step(Event::Line("b")), Output::Line("     3\tb".to_string()));
    assert_eq!(d.step(Event::EndOfInput), Output::Nothing);
    assert_eq!(d.request(), Request::Finish);
    assert_eq!(d.counter(), 3);
}

#[test]
fn driver_reports_open_failure_and_moves_on() {
    let mut d = driver(&["bad", "good"], true, false);
    assert_eq!(
        d.step(Event::OpenFailed("No such file or directory (os error 2)")),
        Output::Diagnostic("bad: No such file or directory (os error 2)".to_string())
    );
    assert_eq!(d.counter(), 0);
    assert_eq!(d.request(), Request::Open(Source::File("good".to_string())));
    assert_eq!(d.step(Event::Opened), Output::Nothing);
    assert_eq!(d.step(Event::Line("only")), Output::Line("     1\tonly".to_string()));
    assert_eq!(d.step(Event::EndOfInput), Output::Nothing);
    assert_eq!(d.request(), Request::Finish);
}

#[test]
fn driver_reports_read_failure_and_moves_on() {
    let mut d = driver(&["half", "whole"], false, true);
    assert_eq!(d.step(Event::Opened), Output::Nothing);
    assert_eq!(d.step(Event::Line("kept")), Output::Line("     1\tkept".to_string()));
    assert_eq!(
        d.step(Event::ReadFailed("stream did not contain valid UTF-8")),
        Output::Diagnostic("half: stream did not contain valid UTF-8".to_string())
    );
    assert_eq!(d.counter(), 1);
    assert_eq!(d.request(), Request::Open(Source::File("whole".to_string())));
    assert_eq!(d.step(Event::Opened), Output::Nothing);
    assert_eq!(d.step(Event::Line("")), Output::Line(String::new()));
    assert_eq!(d.step(Event::Line("next")), Output::Line("     2\tnext".to_string()));
}

#[test]
fn driver_accepts_only_the_answer_to_its_request() {
    let mut d = driver(&["f"], false, false);
    assert!(d.accepts(&Event::Opened));
    assert!(d.accepts(&Event::OpenFailed("why")));
    assert!(!d.accepts(&Event::Line("x")));
    assert!(!d.accepts(&Event::EndOfInput));
    assert!(!d.accepts(&Event::ReadFailed("why")));
    d.step(Event::Opened);
    assert!(!d.accepts(&Event::Opened));
    assert!(!d.accepts(&Event::OpenFailed("why")));
    assert!(d.accepts(&Event::Line("x")));
    assert!(d.accepts(&Event::EndOfInput));
    assert!(d.accepts(&Event::ReadFailed("why")));
    d.step(Event::EndOfInput);
    assert_eq!(d.request(), Request::Finish);
    assert!(!d.accepts(&Event::Opened));
    assert!(!d.accepts(&Event::OpenFailed("why")));
    assert!(!d.accepts(&Event::Line("x")));
    assert!(!d.accepts(&Event::EndOfInput));
    assert!(!d.accepts(&Event::ReadFailed("why")));
}
