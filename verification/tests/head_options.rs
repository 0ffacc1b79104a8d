use lineutils::head::config::Config;
use lineutils::head::parse::parse_positive_int;

#[test]
fn test_parse_positive_int() {
    // 3 is ok
    let res = parse_positive_int("3");
    assert!(res.is_ok());
    assert_eq!(res.unwrap(), 3);

    // any non numeric string is an error
    let res = parse_positive_int("bar");
    assert!(res.is_err());
    assert_eq!(res.unwrap_err().to_string(), "bar".to_string());

    // any non strictly positive is an error
    let res = parse_positive_int("0");
    assert!(res.is_err());
    assert_eq!(res.unwrap_err().to_string(), "0".to_string());
}

#[test]
fn parse_accepts_what_the_standard_parser_accepts() {
    let texts = [
        "1", "10", "0010", "+7", "+0", "000", "", "+", "-", "-1", "++1", "1+", " 1", "1 ", "1_000",
        "0x10", "12a", "١٢", "4294967295", "4294967296", "18446744073709551615",
        "18446744073709551616", "99999999999999999999999999", "+18446744073709551615",
    ];
    for text in texts {
        let expected: Result<usize, String> = match text.parse::<usize>() {
            Ok(n) if n > 0 => Ok(n),
            _ => Err(text.to_string()),
        };
        assert_eq!(parse_positive_int(text), expected, "text {:?}", text);
    }
}

#[test]
fn parse_reads_plus_sign_and_leading_zeros() {
    assert_eq!(parse_positive_int("+42"), Ok(42));
    assert_eq!(parse_positive_int("007"), Ok(7));
    assert_eq!(parse_positive_int("+"), Err("+".to_string()));
    assert_eq!(parse_positive_int(""), Err(String::new()));
    assert_eq!(parse_positive_int("-3"), Err("-3".to_string()));
}

#[test]
fn parse_rejects_what_does_not_fit() {
    let largest = usize::MAX.to_string();
    assert_eq!(parse_positive_int(&largest), Ok(usize::MAX));
    let too_large = format!("{}0", largest);
    assert_eq!(parse_positive_int(&too_large), Err(too_large.clone()));
    assert_eq!(
        parse_positive_int("18446744073709551616"),
        Err("18446744073709551616".to_string())
    );
}

#[test]
fn head_config_takes_positive_counts() {
    let files = vec!["a.txt".to_string(), "-".to_string()];
    let config = Config::from_options(files.clone(), "10", None).unwrap();
    assert_eq!(config.files(), &files);
    assert_eq!(config.lines(), 10);
    assert_eq!(config.bytes(), None);

    let config = Config::from_options(files.clone(), "3", Some("512")).unwrap();
    assert_eq!(config.lines(), 3);
    assert_eq!(config.bytes(), Some(512));
}

#[test]
fn head_config_complains_about_line_count() {
    let res = Config::from_options(vec!["-".to_string()], "three", None);
    assert_eq!(res.unwrap_err(), "Illegal line count -- three");
    let res = Config::from_options(vec!["-".to_string()], "0", Some("4"));
    assert_eq!(res.unwrap_err(), "Illegal line count -- 0");
}

#[test]
fn head_config_complains_about_byte_count() {
    let res = Config::from_options(vec!["-".to_string()], "10", Some("1k"));
    assert_eq!(res.unwrap_err(), "Illegal byte count -- 1k");
    let res = Config::from_options(vec!["-".to_string()], "10", Some("0"));
    assert_eq!(res.unwrap_err(), "Illegal byte count -- 0");
}

#[test]
fn head_config_complains_about_line_count_first() {
    let res = Config::from_options(Vec::new(), "x", Some("y"));
    assert_eq!(res.unwrap_err(), "Illegal line count -- x");
}
