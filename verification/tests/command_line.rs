use hurlbench::cli::{parse_duration, parse_parallelism, CmdArgs};
use hurlbench::text::same_text;
use hurlbench::cli::{DEFAULT_DURATION, DEFAULT_PARALLELISM, NANOS_PER_MILLI, NANOS_PER_SEC};
use hurlbench::error::ConfigError;

fn args(list: &[&str]) -> Vec<String> {
    list.iter().map(|s| s.to_string()).collect()
}

#[test]
fn file_path_alone_takes_the_defaults() {
    let parsed = CmdArgs::new(&args(&["requests.hurl"])).unwrap();
    assert_eq!(parsed.filepath, "requests.hurl");
    assert_eq!(parsed.duration, 10 * NANOS_PER_SEC);
    assert_eq!(parsed.duration, DEFAULT_DURATION);
    assert_eq!(parsed.parallelism, 1);
    assert_eq!(parsed.parallelism, DEFAULT_PARALLELISM);
}

#[test]
fn short_flags_are_read() {
    let parsed = CmdArgs::new(&args(&["-d", "30s", "-p", "8", "a.hurl"])).unwrap();
    assert_eq!(parsed.duration, 30 * NANOS_PER_SEC);
    assert_eq!(parsed.parallelism, 8);
    assert_eq!(parsed.filepath, "a.hurl");
}

#[test]
fn long_flags_are_read() {
    let parsed =
        CmdArgs::new(&args(&["--parallelism", "3", "a.hurl", "--duration", "250m"])).unwrap();
    assert_eq!(parsed.duration, 250 * NANOS_PER_MILLI);
    assert_eq!(parsed.parallelism, 3);
    assert_eq!(parsed.filepath, "a.hurl");
}

#[test]
fn a_setting_given_twice_counts_once_the_last() {
    let parsed = CmdArgs::new(&args(&["first", "-d", "1s", "-d", "2s", "-p", "5", "-p", "6", "last"]))
        .unwrap();
    assert_eq!(parsed.duration, 2 * NANOS_PER_SEC);
    assert_eq!(parsed.parallelism, 6);
    assert_eq!(parsed.filepath, "last");
}

#[test]
fn no_arguments_is_a_missing_argument() {
    assert_eq!(CmdArgs::new(&args(&[])).unwrap_err(), ConfigError::MissingArgument);
}

#[test]
fn flags_without_a_file_path_is_a_missing_argument() {
    assert_eq!(
        CmdArgs::new(&args(&["-d", "1s", "-p", "2"])).unwrap_err(),
        ConfigError::MissingArgument
    );
}

#[test]
fn a_flag_without_its_value_is_a_missing_argument() {
    assert_eq!(CmdArgs::new(&args(&["a.hurl", "-d"])).unwrap_err(), ConfigError::MissingArgument);
    assert_eq!(
        CmdArgs::new(&args(&["a.hurl", "--duration"])).unwrap_err(),
        ConfigError::MissingArgument
    );
    assert_eq!(CmdArgs::new(&args(&["a.hurl", "-p"])).unwrap_err(), ConfigError::MissingArgument);
    assert_eq!(
        CmdArgs::new(&args(&["a.hurl", "--parallelism"])).unwrap_err(),
        ConfigError::MissingArgument
    );
}

#[test]
fn a_flag_takes_whatever_follows_as_its_value() {
    // `-p` is read as the duration, and is no duration
    assert_eq!(
        CmdArgs::new(&args(&["-d", "-p", "4", "a.hurl"])).unwrap_err(),
        ConfigError::InvalidNumber
    );
    // `5s` is read as the duration, so `-d` never is a file path
    let parsed = CmdArgs::new(&args(&["-d", "5s", "-d"]));
    assert_eq!(parsed.unwrap_err(), ConfigError::MissingArgument);
}

#[test]
fn the_first_bad_argument_decides() {
    assert_eq!(
        CmdArgs::new(&args(&["-d", "5x", "-p", "abc"])).unwrap_err(),
        ConfigError::UnknownTimeModifier(b'x')
    );
    assert_eq!(
        CmdArgs::new(&args(&["-p", "abc", "-d", "5x"])).unwrap_err(),
        ConfigError::InvalidNumber
    );
}

#[test]
fn unknown_flags_are_file_paths() {
    let parsed = CmdArgs::new(&args(&["--verbose"])).unwrap();
    assert_eq!(parsed.filepath, "--verbose");
    let parsed = CmdArgs::new(&args(&["-D", "-P"])).unwrap();
    assert_eq!(parsed.filepath, "-P");
}

#[test]
fn file_path_keeps_every_character() {
    let parsed = CmdArgs::new(&args(&["dir/ünï cødé/r\u{e9}q.hurl"])).unwrap();
    assert_eq!(parsed.filepath, "dir/ünï cødé/r\u{e9}q.hurl");
}

#[test]
fn duration_in_seconds() {
    assert_eq!(parse_duration("10s"), Ok(10_000_000_000));
    assert_eq!(parse_duration("1s"), Ok(NANOS_PER_SEC));
    assert_eq!(parse_duration("0s"), Ok(0));
    assert_eq!(parse_duration("007s"), Ok(7 * NANOS_PER_SEC));
}

#[test]
fn duration_in_milliseconds() {
    assert_eq!(parse_duration("1m"), Ok(1_000_000));
    assert_eq!(parse_duration("1500m"), Ok(1_500_000_000));
    assert_eq!(parse_duration("0m"), Ok(0));
}

#[test]
fn duration_unit_in_capitals() {
    assert_eq!(parse_duration("3S"), Ok(3 * NANOS_PER_SEC));
    assert_eq!(parse_duration("3M"), Ok(3 * NANOS_PER_MILLI));
}

#[test]
fn duration_with_a_plus_sign() {
    assert_eq!(parse_duration("+5s"), Ok(5 * NANOS_PER_SEC));
}

#[test]
fn longest_duration() {
    assert_eq!(
        parse_duration("18446744073709551615s"),
        Ok(18_446_744_073_709_551_615u128 * NANOS_PER_SEC)
    );
    assert_eq!(
        parse_duration("18446744073709551615m"),
        Ok(18_446_744_073_709_551_615u128 * NANOS_PER_MILLI)
    );
    assert_eq!(parse_duration("18446744073709551616s"), Err(ConfigError::InvalidNumber));
    assert_eq!(parse_duration("99999999999999999999999999s"), Err(ConfigError::InvalidNumber));
}

#[test]
fn empty_duration_has_no_suffix() {
    assert_eq!(parse_duration(""), Err(ConfigError::MissingSuffix));
}

#[test]
fn duration_without_a_number() {
    assert_eq!(parse_duration("s"), Err(ConfigError::InvalidNumber));
    assert_eq!(parse_duration("m"), Err(ConfigError::InvalidNumber));
    assert_eq!(parse_duration("+s"), Err(ConfigError::InvalidNumber));
    assert_eq!(parse_duration("abcs"), Err(ConfigError::InvalidNumber));
    assert_eq!(parse_duration("1.5s"), Err(ConfigError::InvalidNumber));
    assert_eq!(parse_duration("-1s"), Err(ConfigError::InvalidNumber));
    assert_eq!(parse_duration("1 s"), Err(ConfigError::InvalidNumber));
    assert_eq!(parse_duration(" 1s"), Err(ConfigError::InvalidNumber));
    assert_eq!(parse_duration("++1s"), Err(ConfigError::InvalidNumber));
    assert_eq!(parse_duration("1+s"), Err(ConfigError::InvalidNumber));
    // the number is all but the last byte, so a lone digit leaves none
    assert_eq!(parse_duration("5"), Err(ConfigError::InvalidNumber));
}

#[test]
fn duration_with_an_unknown_unit() {
    assert_eq!(parse_duration("10x"), Err(ConfigError::UnknownTimeModifier(b'x')));
    assert_eq!(parse_duration("10h"), Err(ConfigError::UnknownTimeModifier(b'h')));
    // the unit is reported in lower case
    assert_eq!(parse_duration("10H"), Err(ConfigError::UnknownTimeModifier(b'h')));
    assert_eq!(parse_duration("10 "), Err(ConfigError::UnknownTimeModifier(b' ')));
    // the last byte is the unit, a digit too
    assert_eq!(parse_duration("10"), Err(ConfigError::UnknownTimeModifier(b'0')));
}

#[test]
fn duration_that_ends_in_a_wide_character() {
    // the number is judged first, and the bytes before the last are no number
    assert_eq!(parse_duration("10é"), Err(ConfigError::InvalidNumber));
    assert_eq!(parse_duration("é"), Err(ConfigError::InvalidNumber));
}

#[test]
fn parallelism_is_a_plain_number() {
    assert_eq!(parse_parallelism("1"), Ok(1));
    assert_eq!(parse_parallelism("64"), Ok(64));
    assert_eq!(parse_parallelism("+4"), Ok(4));
    assert_eq!(parse_parallelism("0"), Ok(0));
    assert_eq!(parse_parallelism("0012"), Ok(12));
    assert_eq!(parse_parallelism(&usize::MAX.to_string()), Ok(usize::MAX));
}

#[test]
fn parallelism_that_is_no_number() {
    assert_eq!(parse_parallelism(""), Err(ConfigError::InvalidNumber));
    assert_eq!(parse_parallelism("+"), Err(ConfigError::InvalidNumber));
    assert_eq!(parse_parallelism("four"), Err(ConfigError::InvalidNumber));
    assert_eq!(parse_parallelism("-1"), Err(ConfigError::InvalidNumber));
    assert_eq!(parse_parallelism("4s"), Err(ConfigError::InvalidNumber));
    assert_eq!(parse_parallelism("1_000"), Err(ConfigError::InvalidNumber));
    assert_eq!(parse_parallelism("18446744073709551616"), Err(ConfigError::InvalidNumber));
}

#[test]
fn same_text_compares_whole_texts() {
    assert!(same_text("", ""));
    assert!(same_text("-d", "-d"));
    assert!(same_text("héllo", "héllo"));
    assert!(!same_text("-d", "-p"));
    assert!(!same_text("-d", "-d "));
    assert!(!same_text("-d", ""));
    assert!(!same_text("GET", "get"));
}

#[test]
fn run_config_needs_a_worker() {
    let parsed = CmdArgs::new(&args(&["-p", "0", "a.hurl"])).unwrap();
    assert_eq!(parsed.parallelism, 0);
    assert_eq!(parsed.run_config().unwrap_err(), ConfigError::NoWorkers);
}

#[test]
fn run_config_keeps_the_arguments() {
    let parsed = CmdArgs::new(&args(&["-p", "4", "-d", "1s", "a.hurl"])).unwrap();
    let config = parsed.run_config().unwrap();
    assert_eq!(config.parallelism(), 4);
    assert_eq!(config.duration(), NANOS_PER_SEC);
}
