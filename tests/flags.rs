use toiletcli::flags::{
    check_flags, parse_flags, parse_flags_until_subcommand, ArgStream, Flag,
    FlagType,
};

fn stream(argv: &[&str]) -> ArgStream {
    ArgStream::new(argv.iter().map(|x| x.to_string()).collect())
}

fn strings(v: &[&str]) -> Vec<String> {
    v.iter().map(|x| x.to_string()).collect()
}

#[test]
fn flags_macro() {
    let flags: Vec<Flag> = vec![
        (FlagType::StringFlag(String::new()), vec!["--color", "-c"]),
        (FlagType::BoolFlag(false), vec!["--help"]),
    ];

    let flags_built: Vec<Flag> = vec![
        (FlagType::string_flag(), vec!["--color", "-c"]),
        (FlagType::bool_flag(), vec!["--help"]),
    ];

    assert_eq!(flags, flags_built);
}

#[test]
fn flag_everything_after() {
    let mut args = stream(&[
        "program", "-v", "-rr", "--", "argument", "-file", "hello!", "-rrrr",
    ]);
    let mut flags: Vec<Flag> = vec![
        (FlagType::repeat_flag(), vec!["-v"]),
        (FlagType::repeat_flag(), vec!["-r"]),
    ];

    let parsed_args = parse_flags(&mut args, &mut flags);

    assert_eq!(
        parsed_args.unwrap(),
        strings(&["program", "argument", "-file", "hello!", "-rrrr"])
    );
    assert_eq!(flags[0].0, FlagType::RepeatFlag(1));
    assert_eq!(flags[1].0, FlagType::RepeatFlag(2));
}

#[test]
fn flag_everything_after_subcommand() {
    let mut args = stream(&["-v", "-rr", "--", "argument"]);
    let mut flags: Vec<Flag> = vec![
        (FlagType::repeat_flag(), vec!["-v"]),
        (FlagType::repeat_flag(), vec!["-r"]),
    ];

    let subcommand = parse_flags_until_subcommand(&mut args, &mut flags);
    assert_eq!(&subcommand.unwrap(), "--");

    let parsed_args = parse_flags(&mut args, &mut flags);

    assert_eq!(parsed_args.unwrap(), strings(&["argument"]));
    assert_eq!(flags[0].0, FlagType::RepeatFlag(1));
    assert_eq!(flags[1].0, FlagType::RepeatFlag(2));
}

#[test]
fn flag_repeat_flag() {
    let mut args = stream(&["program", "-vvvv", "-eee", "--test", "argument"]);
    let mut flags: Vec<Flag> = vec![
        (FlagType::repeat_flag(), vec!["-v"]),
        (FlagType::repeat_flag(), vec!["-e"]),
        (FlagType::repeat_flag(), vec!["-u", "--unused"]),
        (FlagType::repeat_flag(), vec!["-t", "--test"]),
    ];

    let parsed_args = parse_flags(&mut args, &mut flags);

    assert_eq!(flags[0].0, FlagType::RepeatFlag(4));
    assert_eq!(flags[1].0, FlagType::RepeatFlag(3));
    assert_eq!(flags[2].0, FlagType::RepeatFlag(0));
    assert_eq!(flags[3].0, FlagType::RepeatFlag(1));
    assert_eq!(parsed_args.unwrap(), strings(&["program", "argument"]));
}

#[test]
fn parse_flags_equals() {
    let mut args = stream(&[
        "program",
        "arg_one",
        "-s=test1",
        "arg_two",
        "--long=test2",
        "--many=first",
        "arg_three",
        "--many",
        "second",
        "arg_four",
    ]);
    let mut flags: Vec<Flag> = vec![
        (FlagType::string_flag(), vec!["-s"]),
        (FlagType::string_flag(), vec!["--long"]),
        (FlagType::many_flag(), vec!["--many"]),
    ];

    let parsed_args = parse_flags(&mut args, &mut flags).unwrap();

    assert_eq!(
        parsed_args,
        strings(&["program", "arg_one", "arg_two", "arg_three", "arg_four"])
    );
    assert_eq!(flags[0].0, FlagType::StringFlag("test1".to_string()));
    assert_eq!(flags[1].0, FlagType::StringFlag("test2".to_string()));
    assert_eq!(flags[2].0, FlagType::ManyFlag(strings(&["first", "second"])));
}

#[test]
fn parse_flags_default() {
    let mut args = stream(&[
        "program",
        "argument_one",
        "-aVns",
        "--long-specific",
        "something",
        "-vvvvv",
        "--many",
        "first",
        "--many",
        "second",
        "argument_two",
    ]);
    let mut flags: Vec<Flag> = vec![
        (FlagType::BoolFlag(false), vec!["-a"]),
        (FlagType::BoolFlag(false), vec!["-V"]),
        (FlagType::BoolFlag(false), vec!["-n"]),
        (FlagType::BoolFlag(false), vec!["-s"]),
        (FlagType::StringFlag(String::new()), vec!["--long-specific"]),
        (FlagType::StringFlag(String::new()), vec!["--not-used"]),
        (FlagType::RepeatFlag(0), vec!["-v"]),
        (FlagType::BoolFlag(false), vec!["-z"]),
        (FlagType::ManyFlag(vec![]), vec!["--many"]),
    ];

    let parsed_args = parse_flags(&mut args, &mut flags).unwrap();

    assert_eq!(
        parsed_args,
        strings(&["program", "argument_one", "argument_two"])
    );
    for i in 0..4 {
        assert_eq!(flags[i].0, FlagType::BoolFlag(true));
    }
    assert_eq!(flags[6].0, FlagType::RepeatFlag(5));
    assert_eq!(flags[7].0, FlagType::BoolFlag(false));
    assert_eq!(flags[4].0, FlagType::StringFlag("something".to_string()));
    assert_eq!(flags[5].0, FlagType::StringFlag(String::new()));
    assert_eq!(flags[8].0, FlagType::ManyFlag(strings(&["first", "second"])));
}

#[test]
fn parse_flags_no_arguments() {
    let mut args = stream(&["program", "-v", "-d"]);

    let program_name = args.next().unwrap();

    assert_eq!(program_name, "program".to_string());

    let mut flags: Vec<Flag> = vec![
        (FlagType::bool_flag(), vec!["-v"]),
        (FlagType::bool_flag(), vec!["-d"]),
    ];

    let parsed_args = parse_flags(&mut args, &mut flags);

    assert_eq!(flags[1].0, FlagType::BoolFlag(true));
    assert_eq!(flags[0].0, FlagType::BoolFlag(true));
    assert!(parsed_args.unwrap().is_empty());
}

#[test]
fn parse_flags_subcommand() {
    let mut args = stream(&["program", "-v", "dump", "-d", "argument"]);

    let program_name = args.next().unwrap();

    assert_eq!(program_name, "program".to_string());

    let mut main_flags: Vec<Flag> = vec![(FlagType::bool_flag(), vec!["-v"])];

    let subcommand = parse_flags_until_subcommand(&mut args, &mut main_flags);

    assert_eq!(main_flags[0].0, FlagType::BoolFlag(true));
    assert_eq!(subcommand.unwrap(), "dump".to_string());

    let mut sub_flags: Vec<Flag> = vec![(FlagType::bool_flag(), vec!["-d"])];

    let parsed_args = parse_flags(&mut args, &mut sub_flags);

    assert_eq!(sub_flags[0].0, FlagType::BoolFlag(true));
    assert_eq!(parsed_args.unwrap(), strings(&["argument"]));
}

#[test]
fn parse_flags_subcommand_no_argument() {
    let mut args = stream(&["program", "-v", "-d"]);

    let program_name = args.next().unwrap();

    assert_eq!(program_name, "program".to_string());

    let mut main_flags: Vec<Flag> = vec![
        (FlagType::bool_flag(), vec!["-v"]),
        (FlagType::bool_flag(), vec!["-d"]),
    ];

    let subcommand = parse_flags_until_subcommand(&mut args, &mut main_flags);

    assert_eq!(main_flags[0].0, FlagType::BoolFlag(true));
    assert_eq!(main_flags[1].0, FlagType::BoolFlag(true));
    assert!(subcommand.unwrap().is_empty());
}

/// Parses as a program does: a malformed table is a programming error.
fn parse_checked(args: &mut ArgStream, flags: &mut Vec<Flag>) -> Vec<String> {
    assert!(check_flags(flags), "malformed flag table");
    parse_flags(args, flags).unwrap()
}

#[test]
#[should_panic]
fn parse_flags_malformed() {
    let mut args = stream(&["program"]);
    let mut flags: Vec<Flag> = vec![(FlagType::BoolFlag(false), vec!["m"])];
    parse_checked(&mut args, &mut flags);
}

#[test]
#[should_panic]
fn parse_flags_malformed_long() {
    let mut args = stream(&["program"]);
    let mut flags: Vec<Flag> = vec![(FlagType::BoolFlag(false), vec!["-onedash"])];
    parse_checked(&mut args, &mut flags);
}

#[test]
#[should_panic]
fn parse_flags_malformed_space() {
    let mut args = stream(&["program"]);
    let mut flags: Vec<Flag> = vec![(FlagType::BoolFlag(false), vec!["--space bar"])];
    parse_checked(&mut args, &mut flags);
}

#[test]
#[should_panic]
fn parse_flags_cant_combine() {
    let mut args = stream(&["program", "-sa", "test"]);
    let mut flags: Vec<Flag> = vec![
        (FlagType::StringFlag(String::new()), vec!["-s"]),
        (FlagType::BoolFlag(false), vec!["-a"]),
    ];
    parse_checked(&mut args, &mut flags);
}

#[test]
#[should_panic]
fn parse_flags_extra_value() {
    let mut args = stream(&["program", "-s=test"]);
    let mut flags: Vec<Flag> = vec![(FlagType::BoolFlag(false), vec!["-s"])];
    parse_checked(&mut args, &mut flags);
}
