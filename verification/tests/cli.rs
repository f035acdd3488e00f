use gateway_admission::cli::{
    accept_parsed, flag_text, parse_flag, parse_list, split_eq, split_list, validate_flags,
    FlagError,
};

fn argv(parts: &[&str]) -> Vec<String> {
    std::iter::once("bin")
        .chain(parts.iter().copied())
        .map(str::to_string)
        .collect()
}

const KNOWN: &[&str] = &["--port", "--peers", "--block-size"];

fn message(result: Result<(), FlagError>) -> String {
    match result {
        Ok(()) => String::new(),
        Err(error) => error.message(),
    }
}

#[test]
fn both_value_forms_parse_identically() {
    let spaced = argv(&["--port", "40000", "--peers", "a,b"]);
    let inline = argv(&["--port=40000", "--peers=a,b"]);
    validate_flags(&spaced, KNOWN).unwrap();
    validate_flags(&inline, KNOWN).unwrap();
    assert_eq!(parse_flag::<u16>(&spaced, "--port").unwrap(), Some(40000));
    assert_eq!(parse_flag::<u16>(&inline, "--port").unwrap(), Some(40000));
    assert_eq!(parse_list(&spaced, "--peers").unwrap(), vec!["a", "b"]);
    assert_eq!(parse_list(&inline, "--peers").unwrap(), vec!["a", "b"]);
    assert_eq!(parse_flag::<u32>(&inline, "--block-size").unwrap(), None);
}

#[test]
#[should_panic(expected = "unparsable value")]
fn unparsable_value_is_a_startup_error_not_a_default() {
    if let Err(error) = parse_flag::<u32>(&argv(&["--block-size", "128x"]), "--block-size") {
        panic!("{}", error.message());
    }
}

#[test]
#[should_panic(expected = "unknown flag --blocksize")]
fn misspelled_flag_is_rejected() {
    if let Err(error) = validate_flags(&argv(&["--blocksize", "256"]), KNOWN) {
        panic!("{}", error.message());
    }
}

#[test]
#[should_panic(expected = "missing its value")]
fn trailing_flag_without_value_is_rejected() {
    if let Err(error) = validate_flags(&argv(&["--port"]), KNOWN) {
        panic!("{}", error.message());
    }
}

#[test]
fn each_fault_is_reported_in_its_own_words() {
    assert_eq!(
        message(validate_flags(&argv(&["port"]), KNOWN)),
        "unexpected argument port"
    );
    assert_eq!(
        message(validate_flags(&argv(&["--blocksize", "256"]), KNOWN)),
        "unknown flag --blocksize; known flags: [\"--port\", \"--peers\", \"--block-size\"]"
    );
    assert_eq!(
        message(validate_flags(&argv(&["--port"]), KNOWN)),
        "flag --port is missing its value"
    );
    assert_eq!(
        message(validate_flags(&argv(&["--port", "--peers", "a"]), KNOWN)),
        "flag --port is missing its value"
    );
    let error = parse_flag::<u32>(&argv(&["--block-size=1\"x"]), "--block-size").unwrap_err();
    assert_eq!(
        error.message(),
        "flag --block-size has an unparsable value: \"1\\\"x\""
    );
    assert!(matches!(error, FlagError::UnparsableValue { .. }));
}

#[test]
fn the_first_fault_counts() {
    let result = validate_flags(&argv(&["--port", "1", "--nope=2", "stray"]), KNOWN);
    assert!(matches!(result, Err(FlagError::UnknownFlag { flag, .. }) if flag == "--nope"));
}

#[test]
fn nothing_to_check_is_accepted() {
    validate_flags(&[], KNOWN).unwrap();
    validate_flags(&argv(&[]), KNOWN).unwrap();
    assert_eq!(parse_flag::<u16>(&[], "--port").unwrap(), None);
}

#[test]
fn a_lone_value_may_look_like_anything_but_a_flag() {
    validate_flags(&argv(&["--peers", "a=b,-c"]), KNOWN).unwrap();
    validate_flags(&argv(&["--peers=--odd"]), KNOWN).unwrap();
    assert_eq!(
        flag_text(&argv(&["--peers=--odd=1"]), "--peers").unwrap(),
        Some("--odd=1".to_string())
    );
    assert_eq!(
        flag_text(&argv(&["--peers", "a=b"]), "--peers").unwrap(),
        Some("a=b".to_string())
    );
}

#[test]
fn the_first_setting_of_a_flag_counts() {
    let args = argv(&["--port", "1", "--port=2"]);
    assert_eq!(parse_flag::<u16>(&args, "--port").unwrap(), Some(1));
}

#[test]
fn reading_a_trailing_flag_reports_the_missing_value() {
    let error = parse_flag::<u16>(&argv(&["--peers=a", "--port"]), "--port").unwrap_err();
    assert!(matches!(error, FlagError::MissingValue { flag } if flag == "--port"));
    assert_eq!(
        parse_flag::<u16>(&argv(&["--peers=a", "--port"]), "--block-size").unwrap(),
        None
    );
    assert!(parse_list(&argv(&["--peers"]), "--peers").is_err());
}

#[test]
fn a_value_is_not_taken_for_a_flag() {
    let args = argv(&["--peers", "--port", "--port", "7"]);
    assert_eq!(parse_flag::<u16>(&args, "--port").unwrap(), Some(7));
}

#[test]
fn numbers_parse_as_the_standard_library_parses_them() {
    for text in [
        "0", "+7", "65535", "65536", "4294967295", "4294967296", "18446744073709551615",
        "18446744073709551616", "007", "", "+", "-0", "-1", " 1", "1 ", "1_0", "1.0", "٣", "++1",
        "0x10",
    ] {
        let args = vec!["bin".to_string(), format!("--n={text}")];
        assert_eq!(parse_flag::<u16>(&args, "--n").ok(), text.parse().ok().map(Some));
        assert_eq!(parse_flag::<u32>(&args, "--n").ok(), text.parse().ok().map(Some));
        assert_eq!(parse_flag::<u64>(&args, "--n").ok(), text.parse().ok().map(Some));
        assert_eq!(parse_flag::<usize>(&args, "--n").ok(), text.parse().ok().map(Some));
    }
}

#[test]
fn a_parsed_value_is_accepted_and_a_failure_is_named() {
    assert_eq!(
        accept_parsed("--rate", "9".to_string(), Some(9i64)).unwrap(),
        Some(9)
    );
    let error = accept_parsed::<i64>("--rate", "x".to_string(), None).unwrap_err();
    assert_eq!(error.message(), "flag --rate has an unparsable value: \"x\"");
}

#[test]
fn arguments_split_at_the_first_equals_sign() {
    assert_eq!(split_eq("--flag=value"), ("--flag", Some("value")));
    assert_eq!(split_eq("--flag"), ("--flag", None));
    assert_eq!(split_eq("--flag="), ("--flag", Some("")));
    assert_eq!(split_eq("--flag=a=b"), ("--flag", Some("a=b")));
    assert_eq!(split_eq("=é"), ("", Some("é")));
    assert_eq!(split_eq(""), ("", None));
}

#[test]
fn list_items_are_trimmed_and_empties_dropped() {
    assert_eq!(split_list(" a , ,b,\t,\u{a0}c d\u{3000},"), vec!["a", "b", "c d"]);
    assert!(split_list("").is_empty());
    assert!(split_list(" , ,").is_empty());
    assert!(parse_list(&argv(&[]), "--peers").unwrap().is_empty());
    assert!(parse_list(&argv(&["--peers="]), "--peers").unwrap().is_empty());
}

#[test]
fn a_list_survives_being_joined_and_split() {
    let items = vec!["http://a:1", "b c", "é"];
    assert_eq!(split_list(&items.join(",")), items);
}

#[test]
fn trimming_agrees_with_the_standard_library_on_every_character() {
    for c in (0..=0x10ffffu32).filter_map(char::from_u32) {
        if c == ',' {
            continue;
        }
        let text = format!("{c}x{c}");
        assert_eq!(split_list(&text), vec![text.trim()]);
    }
}

#[test]
fn the_forms_are_interchangeable_after_accepted_arguments() {
    for value in ["7", "--odd", "a=b", ""] {
        let spaced = argv(&["--peers=a", "--port", value, "--block-size", "x", "tail"]);
        let joined = format!("--port={value}");
        let inline = argv(&["--peers=a", &joined, "--block-size", "x", "tail"]);
        for flag in ["--port", "--peers", "--block-size", "--odd", "tail", "x"] {
            let words = |r: Result<Option<u16>, FlagError>| r.map_err(|e| e.message());
            assert_eq!(
                words(parse_flag::<u16>(&spaced, flag)),
                words(parse_flag::<u16>(&inline, flag))
            );
            assert_eq!(
                flag_text(&spaced, flag).map_err(|e| e.message()),
                flag_text(&inline, flag).map_err(|e| e.message())
            );
        }
    }
}

#[test]
fn known_flags_are_listed_as_the_standard_library_lists_them() {
    for known in [&[] as &[&str], &["--a"], &["--a\"b", "é\n"]] {
        let text = message(validate_flags(&argv(&["--nope"]), known));
        assert_eq!(text, format!("unknown flag --nope; known flags: {known:?}"));
    }
}

#[test]
fn a_plain_offending_text_is_shown_between_quotes() {
    let plain: String = (' '..='~').filter(|c| !matches!(c, '"' | '\'' | '\\')).collect();
    for text in [plain.as_str(), "", "128x"] {
        let error = accept_parsed::<u8>("--n", text.to_string(), None).unwrap_err();
        assert_eq!(
            error.message(),
            format!("flag --n has an unparsable value: \"{text}\"")
        );
    }
}
