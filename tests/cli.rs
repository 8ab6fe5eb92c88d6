use toa_find::cli::{parse_next_int, ParseError, Parser, USAGE};

#[test]
fn args_w_pattern_and_paths() {
    let args = [".exe", "--", "path1", "path2"];
    let result = Parser::from_args(&args);

    assert!(result.is_ok());
    let result = result.unwrap();
    assert!(result.is_some());
    let result = result.unwrap();

    assert!(result.flags.file);
    assert!(result.flags.dir);
    assert_eq!(result.pattern.as_str(), ".exe");
    assert_eq!(result.paths, &args[2..]);
}

#[test]
fn args_w_no_pattern() {
    let args = ["--", "path1", "path2"];
    let result = Parser::from_args(&args);

    assert!(result.is_err());
    let error = result.err().unwrap();
    assert_eq!(error.to_string(), ParseError("Search pattern is missing".to_string()).to_string());
}

#[test]
fn args_w_pattern() {
    let args = [".*"];
    let result = Parser::from_args(&args);

    assert!(result.is_ok());
    let result = result.unwrap();
    assert!(result.is_some());
    let result = result.unwrap();

    assert!(result.flags.file);
    assert!(result.flags.dir);
    assert_eq!(result.pattern.as_str(), ".*");
}

#[test]
fn args_w_pattern_only_exe() {
    let args = ["-f", ".*"];
    let result = Parser::from_args(&args);

    assert!(result.is_ok());
    let result = result.unwrap();
    assert!(result.is_some());
    let result = result.unwrap();

    assert!(result.flags.file);
    assert!(!result.flags.dir);
    assert_eq!(result.pattern.as_str(), ".*");
}

#[test]
fn args_w_few_patterns() {
    let args = ["-f", ".*", "test.*"];
    let result = Parser::from_args(&args);

    assert!(result.is_err());
}

#[test]
fn no_args() {
    let args: [&str; 0] = [];
    let result = Parser::from_args(&args);

    assert!(result.is_err());
}

#[test]
fn bad_arg() {
    let args = ["-bad"];
    let result = Parser::from_args(&args);

    assert!(result.is_err());
}

#[test]
fn parse_num_fail() {
    let opt_name = "my_opt";
    let num_str = "l55";
    let result = parse_next_int::<usize>(Some(num_str), opt_name);

    assert!(result.is_err());
    let error = result.err().unwrap();
    assert_eq!(
        error.to_string(),
        ParseError(format!("Invalid number {} is supplied for option {}", num_str, opt_name)).to_string()
    );
}

#[test]
fn parse_num_fail_empty() {
    let opt_name = "my_opt";
    let result = parse_next_int::<usize>(None, "my_opt");

    assert!(result.is_err());
    let error = result.err().unwrap();
    assert_eq!(error.to_string(), ParseError(format!("Missing value for option {}", opt_name)).to_string());
}

#[test]
fn parse_num_ok_unsigned() {
    let opt_name = "my_opt";
    let num = 55;
    let num_str = format!("{}", num);
    let result = parse_next_int::<usize>(Some(&num_str), opt_name);

    assert!(result.is_ok());
    assert_eq!(result.unwrap(), num);
}

#[test]
fn parse_num_ok_unsigned_negative() {
    let opt_name = "my_opt";
    let num_str = "-55";
    let result = parse_next_int::<usize>(Some(&num_str), opt_name);

    assert!(result.is_err());
}

#[test]
fn parse_num_ok_signed() {
    let opt_name = "my_opt";
    let num = -55;
    let num_str = format!("{}", num);
    let result = parse_next_int::<isize>(Some(&num_str), opt_name);

    assert!(result.is_ok());
    assert_eq!(result.unwrap(), num);
}

fn error_of(args: &[&str]) -> String {
    match Parser::from_args(args) {
        Err(e) => e.0,
        Ok(_) => panic!("expected an error"),
    }
}

fn config_of(args: &[&str]) -> Parser {
    match Parser::from_args(args) {
        Ok(Some(p)) => p,
        _ => panic!("expected a configuration"),
    }
}

#[test]
fn help_short_circuits() {
    assert!(matches!(Parser::from_args(&["-h", "-bad"]), Ok(None)));
    assert!(matches!(Parser::from_args(&["x", "--help"]), Ok(None)));
}

#[test]
fn defaults_of_configuration() {
    let p = config_of(&["abc"]);
    assert_eq!(p.paths, vec![".".to_string()]);
    assert_eq!(p.opts.hop, (0, usize::MAX));
    assert!(!p.flags.sym);
    assert!(!p.flags.quiet);
}

#[test]
fn long_flags_and_depths() {
    let p = config_of(&["--dir", "--sym", "--quiet", "--minhop", "1", "--hop", "3", "x"]);
    assert!(p.flags.dir);
    assert!(!p.flags.file);
    assert!(p.flags.sym);
    assert!(p.flags.quiet);
    assert_eq!(p.opts.hop, (1, 3));
}

#[test]
fn both_type_flags() {
    let p = config_of(&["-d", "-f", "x"]);
    assert!(p.flags.dir && p.flags.file);
}

#[test]
fn dashed_tokens_after_separator_are_paths() {
    let p = config_of(&["x", "--", "-d", "--hop", "--"]);
    assert_eq!(p.paths, vec!["-d".to_string(), "--hop".to_string(), "--".to_string()]);
    assert!(p.flags.dir && p.flags.file);
}

#[test]
fn separator_with_nothing_after_it() {
    let p = config_of(&["x", "--"]);
    assert_eq!(p.paths, vec![".".to_string()]);
}

#[test]
fn minhop_not_a_number() {
    assert_eq!(error_of(&["x", "--minhop", "abc"]), "Invalid number abc is supplied for option --minhop");
}

#[test]
fn minhop_without_value() {
    assert_eq!(error_of(&["x", "--minhop"]), "Missing value for option --minhop");
}

#[test]
fn negative_hop_rejected() {
    assert_eq!(error_of(&["x", "--hop", "-5"]), "Invalid number -5 is supplied for option --hop");
}

#[test]
fn unknown_option_message() {
    assert_eq!(error_of(&["-bad"]), "Invalid option 'bad'");
    assert_eq!(error_of(&["x", "--nope"]), "Invalid option '-nope'");
}

#[test]
fn second_pattern_message() {
    assert_eq!(error_of(&["a", "b"]), "Cannot use more than one pattern for now. Gomen, onii-chan :(");
}

#[test]
fn missing_pattern_message() {
    assert_eq!(error_of(&["-d", "-q"]), "Search pattern is missing");
}

#[test]
fn bad_regex_message() {
    let msg = error_of(&["("]);
    assert!(msg.starts_with("Couldn't compile pattern. "));
    assert!(msg.len() > "Couldn't compile pattern. ".len());
}

#[test]
fn error_display_forms() {
    assert_eq!(ParseError(String::new()).to_string(), USAGE);
    assert_eq!(ParseError("boom".to_string()).to_string(), format!("ERROR: boom\n\n{}", USAGE));
    assert_eq!(ParseError("boom".to_string()).description(), "Wrong arguments");
    assert_eq!(Parser::usage(), USAGE);
}

#[test]
fn max_depth_raised_to_min() {
    let p = config_of(&["x", "--minhop", "5", "--hop", "2"]);
    assert_eq!(p.opts.hop, (5, 5));
    let p = config_of(&["x", "--hop", "2", "--minhop", "5"]);
    assert_eq!(p.opts.hop, (5, 5));
    let p = config_of(&["x", "--minhop", "2", "--hop", "5"]);
    assert_eq!(p.opts.hop, (2, 5));
}

#[test]
fn pattern_between_depth_options() {
    let p = config_of(&["--hop", "3", "x", "--minhop", "1", "-f"]);
    assert_eq!(p.pattern.as_str(), "x");
    assert_eq!(p.opts.hop, (1, 3));
    assert!(p.flags.file && !p.flags.dir);
}

#[test]
fn depth_values_do_not_count_as_patterns() {
    assert_eq!(
        error_of(&["--hop", "3", "a", "--minhop", "0", "b"]),
        "Cannot use more than one pattern for now. Gomen, onii-chan :("
    );
    assert_eq!(error_of(&["--hop", "3", "-q"]), "Search pattern is missing");
}

#[test]
fn type_flags_after_separator_are_paths() {
    let p = config_of(&["-f", "x", "--", "-d"]);
    assert!(p.flags.file && !p.flags.dir);
    assert_eq!(p.paths, vec!["-d".to_string()]);
}
