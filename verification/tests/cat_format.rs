use lineutils::cat::config::Config;
use lineutils::cat::format::format_line;
use lineutils::cat::format::push_content;
use lineutils::cat::format::push_number_prefix;

fn config(number: bool, number_nonblank: bool, show_ends: bool, show_tabs: bool) -> Config {
    Config::new(vec!["-".to_string()], number, number_nonblank, show_ends, show_tabs)
}

fn prefix(n: u64) -> String {
    let mut out = String::new();
    push_number_prefix(&mut out, n);
    out
}

#[test]
fn config_keeps_what_it_is_given() {
    let files = vec!["a".to_string(), "-".to_string(), "b".to_string()];
    let c = Config::new(files.clone(), true, false, true, false);
    assert_eq!(c.files(), &files);
    assert!(c.number_lines());
    assert!(!c.number_nonblank_lines());
    assert!(c.show_ends());
    assert!(!c.show_tabs());
    let c = Config::new(files.clone(), false, true, false, true);
    assert!(!c.number_lines());
    assert!(c.number_nonblank_lines());
    assert!(!c.show_ends());
    assert!(c.show_tabs());
}

#[test]
fn config_without_files_reads_standard_input() {
    let c = Config::new(Vec::new(), false, false, false, false);
    assert_eq!(c.files(), &vec!["-".to_string()]);
}

#[test]
fn config_with_both_numberings_numbers_nonblank_lines() {
    let c = Config::new(vec!["f".to_string()], true, true, false, false);
    assert!(!c.number_lines());
    assert!(c.number_nonblank_lines());
    let mut counter: u64 = 0;
    assert_eq!(format_line("", &mut counter, &c), (String::new(), false));
    assert_eq!(counter, 0);
    assert_eq!(format_line("x", &mut counter, &c), ("     1\tx".to_string(), true));
    assert_eq!(counter, 1);
}

#[test]
fn plain_line_is_unchanged() {
    let c = config(false, false, false, false);
    let mut counter: u64 = 41;
    for raw in ["", "hello", "a\tb", "  spaces  ", "$", "^I", "ünï—cödé", "\r"] {
        assert_eq!(format_line(raw, &mut counter, &c), (raw.to_string(), false));
        assert_eq!(counter, 41);
    }
}

#[test]
fn numbered_line_gets_prefix_of_width_six() {
    let c = config(true, false, false, false);
    let mut counter: u64 = 0;
    assert_eq!(format_line("hello", &mut counter, &c), ("     1\thello".to_string(), true));
    assert_eq!(counter, 1);
    assert_eq!(format_line("world", &mut counter, &c), ("     2\tworld".to_string(), true));
    assert_eq!(counter, 2);
}

#[test]
fn numbering_all_lines_numbers_empty_lines() {
    let c = config(true, false, false, false);
    let mut counter: u64 = 6;
    assert_eq!(format_line("", &mut counter, &c), ("     7\t".to_string(), true));
    assert_eq!(counter, 7);
    let c = config(true, false, true, false);
    assert_eq!(format_line("", &mut counter, &c), ("     8\t$".to_string(), true));
    assert_eq!(counter, 8);
}

#[test]
fn numbering_nonblank_skips_empty_lines() {
    let c = config(false, true, false, false);
    let mut counter: u64 = 0;
    assert_eq!(format_line("a", &mut counter, &c), ("     1\ta".to_string(), true));
    assert_eq!(format_line("", &mut counter, &c), (String::new(), false));
    assert_eq!(counter, 1);
    assert_eq!(format_line("b", &mut counter, &c), ("     2\tb".to_string(), true));
    assert_eq!(counter, 2);
}

#[test]
fn empty_line_with_ends_shown_is_a_dollar() {
    let c = config(false, true, true, false);
    let mut counter: u64 = 3;
    assert_eq!(format_line("", &mut counter, &c), ("$".to_string(), false));
    assert_eq!(counter, 3);
}

#[test]
fn line_of_blanks_is_not_empty() {
    let c = config(false, true, false, true);
    let mut counter: u64 = 0;
    assert_eq!(format_line(" ", &mut counter, &c), ("     1\t ".to_string(), true));
    assert_eq!(format_line("\t", &mut counter, &c), ("     2\t^I".to_string(), true));
    assert_eq!(counter, 2);
}

#[test]
fn tabs_are_shown_as_caret_i() {
    let c = config(false, false, false, true);
    let mut counter: u64 = 0;
    assert_eq!(format_line("x\ty", &mut counter, &c), ("x^Iy".to_string(), false));
    assert_eq!(format_line("\t\t", &mut counter, &c), ("^I^I".to_string(), false));
    assert_eq!(format_line("^I\t^", &mut counter, &c), ("^I^I^".to_string(), false));
    assert_eq!(format_line("é\t—", &mut counter, &c), ("é^I—".to_string(), false));
    assert_eq!(counter, 0);
}

#[test]
fn tab_of_the_prefix_is_never_replaced() {
    let c = config(true, false, true, true);
    let mut counter: u64 = 9;
    assert_eq!(format_line("a\tb", &mut counter, &c), ("    10\ta^Ib$".to_string(), true));
}

#[test]
fn ends_are_shown_as_dollar() {
    let c = config(false, false, true, false);
    let mut counter: u64 = 0;
    assert_eq!(format_line("line", &mut counter, &c), ("line$".to_string(), false));
    assert_eq!(format_line("$", &mut counter, &c), ("$$".to_string(), false));
}

#[test]
fn prefix_grows_beyond_six_digits() {
    assert_eq!(prefix(0), "     0\t");
    assert_eq!(prefix(9), "     9\t");
    assert_eq!(prefix(10), "    10\t");
    assert_eq!(prefix(99999), " 99999\t");
    assert_eq!(prefix(100000), "100000\t");
    assert_eq!(prefix(999999), "999999\t");
    assert_eq!(prefix(1000000), "1000000\t");
    assert_eq!(prefix(u64::MAX), "18446744073709551615\t");
    let c = config(true, false, false, false);
    let mut counter: u64 = 999_999;
    assert_eq!(format_line("x", &mut counter, &c), ("1000000\tx".to_string(), true));
    assert_eq!(counter, 1_000_000);
    let mut counter: u64 = u64::MAX - 1;
    assert_eq!(
        format_line("", &mut counter, &c),
        ("18446744073709551615\t".to_string(), true)
    );
    assert_eq!(counter, u64::MAX);
}

#[test]
fn prefix_is_what_the_standard_formatter_writes() {
    let mut n: u64 = 1;
    for _ in 0..64 {
        for m in [n - 1, n, n + 1, n / 3, n.wrapping_mul(10) / 7] {
            assert_eq!(prefix(m), format!("{:6}\t", m));
        }
        n = n.wrapping_mul(2).max(1);
    }
}

#[test]
fn prefix_is_appended_to_what_is_there() {
    let mut out = "kept".to_string();
    push_number_prefix(&mut out, 12);
    assert_eq!(out, "kept    12\t");
}

#[test]
fn content_is_what_the_standard_replace_gives() {
    for raw in ["", "\t", "a\tb\tc", "no tabs", "\t\t\tx", "tab at end\t", "日本\t語"] {
        let mut shown = "> ".to_string();
        push_content(&mut shown, raw, true);
        assert_eq!(shown, format!("> {}", raw.replace("\t", "^I")));
        let mut kept = "> ".to_string();
        push_content(&mut kept, raw, false);
        assert_eq!(kept, format!("> {}", raw));
    }
}
