use toiletcli::flags::{
    check_flags, parse_flags, parse_flags_until_subcommand, ArgStream, Flag, FlagErrorType,
    FlagType,
};

fn stream(argv: &[&str]) -> ArgStream {
    ArgStream::new(argv.iter().map(|x| x.to_string()).collect())
}

fn strings(v: &[&str]) -> Vec<String> {
    v.iter().map(|x| x.to_string()).collect()
}

#[test]
fn plain_arguments_pass_through() {
    let mut args = stream(&["a", "b=c", "", "=x", "d"]);
    let mut flags: Vec<Flag> = vec![
        (FlagType::bool_flag(), vec!["-a", "--all"]),
        (FlagType::string_flag(), vec!["-b"]),
    ];
    let before = flags.clone();
    let parsed = parse_flags(&mut args, &mut flags).unwrap();
    assert_eq!(parsed, strings(&["a", "b=c", "", "=x", "d"]));
    assert_eq!(flags, before);
    assert_eq!(args.len(), 0);
}

#[test]
fn double_dash_keeps_the_rest() {
    let mut args = stream(&["--", "x", "-a", "--all", "--"]);
    let mut flags: Vec<Flag> = vec![(FlagType::bool_flag(), vec!["-a", "--all"])];
    let parsed = parse_flags(&mut args, &mut flags).unwrap();
    assert_eq!(parsed, strings(&["x", "-a", "--all", "--"]));
    assert_eq!(flags[0].0, FlagType::BoolFlag(false));
}

#[test]
fn short_flags_bundle() {
    let mut args = stream(&["-aVns"]);
    let mut flags: Vec<Flag> = vec![
        (FlagType::bool_flag(), vec!["-a"]),
        (FlagType::bool_flag(), vec!["-V"]),
        (FlagType::bool_flag(), vec!["-n"]),
        (FlagType::bool_flag(), vec!["-s"]),
    ];
    let parsed = parse_flags(&mut args, &mut flags).unwrap();
    assert!(parsed.is_empty());
    for f in &flags {
        assert_eq!(f.0, FlagType::BoolFlag(true));
    }
}

#[test]
fn string_flag_takes_next_argument() {
    let mut args = stream(&["-s", "hello"]);
    let mut flags: Vec<Flag> = vec![(FlagType::string_flag(), vec!["-s"])];
    let parsed = parse_flags(&mut args, &mut flags).unwrap();
    assert!(parsed.is_empty());
    assert_eq!(flags[0].0, FlagType::StringFlag("hello".to_string()));
}

#[test]
fn string_flag_without_value() {
    let mut args = stream(&["-s"]);
    let mut flags: Vec<Flag> = vec![(FlagType::string_flag(), vec!["-s"])];
    let err = parse_flags(&mut args, &mut flags).unwrap_err();
    assert_eq!(err.error_type, FlagErrorType::NoValueProvided);
    assert_eq!(err.flag, "-s");
    assert_eq!(err.message(), "No value provided for -s");
}

#[test]
fn value_flag_cannot_be_combined() {
    let mut args = stream(&["-sa", "x"]);
    let mut flags: Vec<Flag> = vec![
        (FlagType::string_flag(), vec!["-s"]),
        (FlagType::bool_flag(), vec!["-a"]),
    ];
    let err = parse_flags(&mut args, &mut flags).unwrap_err();
    assert_eq!(err.error_type, FlagErrorType::CannotCombine);
    assert_eq!(err.flag, "-s");
    assert_eq!(err.message(), "Flag -s requires a value and can't be combined");
}

#[test]
fn value_flag_cannot_be_combined_with_any_kind() {
    let mut args = stream(&["-sv", "x"]);
    let mut flags: Vec<Flag> = vec![
        (FlagType::many_flag(), vec!["-s"]),
        (FlagType::repeat_flag(), vec!["-v"]),
    ];
    let err = parse_flags(&mut args, &mut flags).unwrap_err();
    assert_eq!(err.error_type, FlagErrorType::CannotCombine);
    assert_eq!(err.flag, "-s");
}

#[test]
fn repeat_flag_long_and_short() {
    let mut args = stream(&["--verbose"]);
    let mut flags: Vec<Flag> = vec![(FlagType::repeat_flag(), vec!["-v", "--verbose"])];
    parse_flags(&mut args, &mut flags).unwrap();
    assert_eq!(flags[0].0, FlagType::RepeatFlag(1));

    let mut args = stream(&["-vvvv"]);
    let mut flags: Vec<Flag> = vec![(FlagType::repeat_flag(), vec!["-v", "--verbose"])];
    parse_flags(&mut args, &mut flags).unwrap();
    assert_eq!(flags[0].0, FlagType::RepeatFlag(4));
}

#[test]
fn repeat_flag_stops_at_the_largest_count() {
    let mut args = stream(&["-vv"]);
    let mut flags: Vec<Flag> = vec![(FlagType::RepeatFlag(usize::MAX - 1), vec!["-v"])];
    parse_flags(&mut args, &mut flags).unwrap();
    assert_eq!(flags[0].0, FlagType::RepeatFlag(usize::MAX));
}

#[test]
fn many_flag_keeps_order() {
    let mut args = stream(&["--many", "b", "--many", "a"]);
    let mut flags: Vec<Flag> = vec![(FlagType::many_flag(), vec!["--many"])];
    let parsed = parse_flags(&mut args, &mut flags).unwrap();
    assert!(parsed.is_empty());
    assert_eq!(flags[0].0, FlagType::ManyFlag(strings(&["b", "a"])));

    let mut args = stream(&["--many", "a", "--many", "b"]);
    let mut flags: Vec<Flag> = vec![(FlagType::many_flag(), vec!["--many"])];
    parse_flags(&mut args, &mut flags).unwrap();
    assert_eq!(flags[0].0, FlagType::ManyFlag(strings(&["a", "b"])));
}

#[test]
fn subcommand_split() {
    let mut args = stream(&["-v", "dump", "-d", "x"]);
    let mut main_flags: Vec<Flag> = vec![(FlagType::bool_flag(), vec!["-v"])];
    let sub = parse_flags_until_subcommand(&mut args, &mut main_flags).unwrap();
    assert_eq!(sub, "dump");
    assert_eq!(main_flags[0].0, FlagType::BoolFlag(true));
    assert_eq!(args.len(), 2);

    let mut sub_flags: Vec<Flag> = vec![(FlagType::bool_flag(), vec!["-d"])];
    let parsed = parse_flags(&mut args, &mut sub_flags).unwrap();
    assert_eq!(parsed, strings(&["x"]));
    assert_eq!(sub_flags[0].0, FlagType::BoolFlag(true));
}

#[test]
fn unknown_long_flag() {
    let mut args = stream(&["--nope"]);
    let mut flags: Vec<Flag> = vec![(FlagType::bool_flag(), vec!["-n", "--no"])];
    let err = parse_flags(&mut args, &mut flags).unwrap_err();
    assert_eq!(err.error_type, FlagErrorType::Unknown);
    assert_eq!(err.flag, "--nope");
    assert_eq!(err.message(), "Unknown flag --nope");

    let mut args = stream(&["--nope"]);
    let err = parse_flags_until_subcommand(&mut args, &mut flags).unwrap_err();
    assert_eq!(err.error_type, FlagErrorType::Unknown);
    assert_eq!(err.flag, "--nope");
}

#[test]
fn unknown_short_flag_names_the_character() {
    let mut args = stream(&["-nx"]);
    let mut flags: Vec<Flag> = vec![(FlagType::bool_flag(), vec!["-n"])];
    let err = parse_flags(&mut args, &mut flags).unwrap_err();
    assert_eq!(err.error_type, FlagErrorType::Unknown);
    assert_eq!(err.flag, "-x");
}

#[test]
fn bool_flag_rejects_inline_value() {
    let mut args = stream(&["--help=yes"]);
    let mut flags: Vec<Flag> = vec![(FlagType::bool_flag(), vec!["--help"])];
    let err = parse_flags(&mut args, &mut flags).unwrap_err();
    assert_eq!(err.error_type, FlagErrorType::ExtraValueProvided);
    assert_eq!(err.flag, "--help");
    assert_eq!(err.message(), "Flag --help does not take a value");
}

#[test]
fn long_flag_without_value() {
    let mut args = stream(&["a", "--color"]);
    let mut flags: Vec<Flag> = vec![(FlagType::string_flag(), vec!["--color"])];
    let err = parse_flags(&mut args, &mut flags).unwrap_err();
    assert_eq!(err.error_type, FlagErrorType::NoValueProvided);
    assert_eq!(err.flag, "--color");
}

#[test]
fn inline_value_splits_at_first_equals() {
    let mut args = stream(&["--key=a=b", "--empty="]);
    let mut flags: Vec<Flag> = vec![
        (FlagType::string_flag(), vec!["--key"]),
        (FlagType::StringFlag("x".to_string()), vec!["--empty"]),
    ];
    parse_flags(&mut args, &mut flags).unwrap();
    assert_eq!(flags[0].0, FlagType::StringFlag("a=b".to_string()));
    assert_eq!(flags[1].0, FlagType::StringFlag(String::new()));
}

#[test]
fn single_dash_is_plain() {
    let mut args = stream(&["-", "-v", "-"]);
    let mut flags: Vec<Flag> = vec![(FlagType::bool_flag(), vec!["-v"])];
    let parsed = parse_flags(&mut args, &mut flags).unwrap();
    assert_eq!(parsed, strings(&["-", "-"]));

    let mut args = stream(&["-", "x"]);
    let sub = parse_flags_until_subcommand(&mut args, &mut flags).unwrap();
    assert_eq!(sub, "-");
    assert_eq!(args.len(), 1);
}

#[test]
fn empty_input() {
    let mut args = stream(&[]);
    let mut flags: Vec<Flag> = vec![(FlagType::bool_flag(), vec!["-v"])];
    assert!(parse_flags(&mut args, &mut flags).unwrap().is_empty());
    let mut args = stream(&[]);
    assert_eq!(parse_flags_until_subcommand(&mut args, &mut flags).unwrap(), "");
}

#[test]
fn first_declaration_wins() {
    let mut args = stream(&["-x"]);
    let mut flags: Vec<Flag> = vec![
        (FlagType::repeat_flag(), vec!["-x"]),
        (FlagType::bool_flag(), vec!["-x"]),
    ];
    parse_flags(&mut args, &mut flags).unwrap();
    assert_eq!(flags[0].0, FlagType::RepeatFlag(1));
    assert_eq!(flags[1].0, FlagType::BoolFlag(false));
}

#[test]
fn rest_flag_takes_everything() {
    let mut args = stream(&["a", "--exec", "ls", "-l", "--", "x"]);
    let mut flags: Vec<Flag> = vec![
        (FlagType::rest_flag(), vec!["--exec", "-e"]),
        (FlagType::bool_flag(), vec!["-l"]),
    ];
    let parsed = parse_flags(&mut args, &mut flags).unwrap();
    assert_eq!(parsed, strings(&["a"]));
    assert_eq!(flags[0].0, FlagType::RestFlag(strings(&["ls", "-l", "--", "x"])));
    assert_eq!(flags[1].0, FlagType::BoolFlag(false));
}

#[test]
fn rest_flag_with_inline_value() {
    let mut args = stream(&["-e=first", "second"]);
    let mut flags: Vec<Flag> = vec![(FlagType::rest_flag(), vec!["-e"])];
    parse_flags(&mut args, &mut flags).unwrap();
    assert_eq!(flags[0].0, FlagType::RestFlag(strings(&["first", "second"])));
}

#[test]
fn rest_flag_needs_a_value() {
    let mut args = stream(&["--exec"]);
    let mut flags: Vec<Flag> = vec![(FlagType::rest_flag(), vec!["--exec"])];
    let err = parse_flags(&mut args, &mut flags).unwrap_err();
    assert_eq!(err.error_type, FlagErrorType::NoValueProvided);
    assert_eq!(err.flag, "--exec");
}

#[test]
fn check_flags_accepts_and_rejects() {
    let good: Vec<Flag> = vec![
        (FlagType::bool_flag(), vec!["-h", "--help"]),
        (FlagType::string_flag(), vec!["--color-mode"]),
    ];
    assert!(check_flags(&good));
    for bad in ["m", "-onedash", "--space bar", "-", "---x", "-\t", ""] {
        let flags: Vec<Flag> = vec![(FlagType::bool_flag(), vec![bad])];
        assert!(!check_flags(&flags), "{:?} should be refused", bad);
    }
}

#[test]
fn stream_next_and_len() {
    let mut args = stream(&["a", "b"]);
    assert_eq!(args.len(), 2);
    assert_eq!(args.next(), Some("a".to_string()));
    assert_eq!(args.next(), Some("b".to_string()));
    assert_eq!(args.next(), None);
    assert_eq!(args.len(), 0);
}

#[test]
fn dash_equals_is_an_empty_group() {
    let mut args = stream(&["-=x", "dump", "-v"]);
    let mut flags: Vec<Flag> = vec![(FlagType::bool_flag(), vec!["-v"])];
    let sub = parse_flags_until_subcommand(&mut args, &mut flags).unwrap();
    assert_eq!(sub, "dump");
    assert_eq!(args.len(), 1);

    let mut args = stream(&["-=x"]);
    assert_eq!(parse_flags_until_subcommand(&mut args, &mut flags).unwrap(), "");
    let mut args = stream(&["-=x", "-="]);
    assert!(parse_flags(&mut args, &mut flags).unwrap().is_empty());
    assert_eq!(flags[0].0, FlagType::BoolFlag(false));
}

#[test]
fn short_group_with_inline_value() {
    let mut args = stream(&["-v=x"]);
    let mut flags: Vec<Flag> = vec![(FlagType::string_flag(), vec!["-v"])];
    assert!(parse_flags(&mut args, &mut flags).unwrap().is_empty());
    assert_eq!(flags[0].0, FlagType::StringFlag("x".to_string()));
}

#[test]
fn until_then_rest_matches_full_parse() {
    let argv = ["-v", "-s", "val", "cmd", "-v", "x"];
    let table = || -> Vec<Flag> {
        vec![
            (FlagType::repeat_flag(), vec!["-v"]),
            (FlagType::string_flag(), vec!["-s"]),
        ]
    };
    let mut whole = table();
    let all = parse_flags(&mut stream(&argv), &mut whole).unwrap();

    let mut split = table();
    let mut args = stream(&argv);
    let sub = parse_flags_until_subcommand(&mut args, &mut split).unwrap();
    let mut rest = parse_flags(&mut args, &mut split).unwrap();
    rest.insert(0, sub);
    assert_eq!(rest, all);
    assert_eq!(split, whole);
}
