use gitway::args::{
    invocation, parse_hash, parse_lifetime, wants_defaults, wants_help, Invocation, Mode, Parsed, HELP,
};
use gitway::errors::CliError;
use gitway::keys::HashAlg;

fn args(list: &[&str]) -> Vec<String> {
    list.iter().map(|a| (*a).to_owned()).collect()
}

fn defaults() -> Result<Vec<String>, CliError> {
    Ok(args(&["/home/u/.ssh/id_ed25519"]))
}

fn parse(list: &[&str]) -> Result<Parsed, CliError> {
    Parsed::from_args(&args(list), defaults())
}

fn refusal(list: &[&str]) -> String {
    match parse(list) {
        Err(CliError::InvalidConfig(message)) => message,
        other => panic!("expected a usage error, got {:?}", other),
    }
}

fn added(parsed: Parsed) -> Vec<String> {
    match parsed.mode {
        Mode::Add { paths } => paths,
        other => panic!("expected paths to add, got {:?}", other),
    }
}

#[test]
fn without_arguments_the_default_keys_are_added() {
    let parsed = parse(&[]).unwrap();
    assert_eq!(parsed.hash, HashAlg::Sha256);
    assert_eq!(parsed.lifetime, None);
    assert!(!parsed.confirm && !parsed.biometric && !parsed.no_biometric);
    assert_eq!(added(parsed), args(&["/home/u/.ssh/id_ed25519"]));
}

#[test]
fn missing_default_keys_are_an_error_only_where_they_are_needed() {
    let none = Parsed::from_args(&[], Err(CliError::NoKeyFound));
    assert!(matches!(none, Err(CliError::NoKeyFound)));
    let given = Parsed::from_args(&args(&["key"]), Err(CliError::NoKeyFound)).unwrap();
    assert_eq!(added(given), args(&["key"]));
    let listed = Parsed::from_args(&args(&["-l"]), Err(CliError::NoKeyFound)).unwrap();
    assert!(matches!(listed.mode, Mode::List { full: false }));
    let both = Parsed::from_args(
        &args(&["--biometric", "--no-biometric"]),
        Err(CliError::NoKeyFound),
    );
    assert!(matches!(both, Err(CliError::NoKeyFound)));
}

#[test]
fn mode_flags_select_the_mode() {
    assert!(matches!(parse(&["-l"]).unwrap().mode, Mode::List { full: false }));
    assert!(matches!(parse(&["-L"]).unwrap().mode, Mode::List { full: true }));
    assert!(matches!(parse(&["-D"]).unwrap().mode, Mode::RemoveAll));
    assert!(matches!(parse(&["-x"]).unwrap().mode, Mode::Lock));
    assert!(matches!(parse(&["-X"]).unwrap().mode, Mode::Unlock));
    match parse(&["-d", "-l"]).unwrap().mode {
        Mode::RemoveOne { path } => assert_eq!(path, "-l"),
        other => panic!("unexpected {:?}", other),
    }
}

#[test]
fn a_second_mode_flag_conflicts() {
    assert_eq!(refusal(&["-l", "-D"]), "-D conflicts with a previous mode flag");
    assert_eq!(refusal(&["-l", "-l"]), "-l conflicts with a previous mode flag");
    assert_eq!(refusal(&["-x", "-d", "key"]), "-d conflicts with a previous mode flag");
}

#[test]
fn options_are_collected() {
    let parsed = parse(&["-c", "-t", "3600", "-E", "SHA512", "--biometric", "a", "b"]).unwrap();
    assert!(parsed.confirm);
    assert!(parsed.biometric);
    assert!(!parsed.no_biometric);
    assert_eq!(parsed.lifetime, Some(3600));
    assert_eq!(parsed.hash, HashAlg::Sha512);
    assert_eq!(added(parsed), args(&["a", "b"]));
}

#[test]
fn the_last_lifetime_and_hash_win() {
    let parsed = parse(&["-t", "1", "-t", "2", "-E", "sha512", "-E", "sha256"]).unwrap();
    assert_eq!(parsed.lifetime, Some(2));
    assert_eq!(parsed.hash, HashAlg::Sha256);
}

#[test]
fn missing_values_are_refused() {
    assert_eq!(refusal(&["-d"]), "-d requires a value");
    assert_eq!(refusal(&["-t"]), "-t requires a value");
    assert_eq!(refusal(&["a", "-E"]), "-E requires a value");
}

#[test]
fn ignored_flags_change_nothing() {
    let parsed = parse(&[
        "-q", "-v", "-vv", "-vvv", "-H", "-T", "-s", "-S", "-e", "-k", "key",
    ])
    .unwrap();
    assert_eq!(added(parsed), args(&["key"]));
    for flag in [
        "-A", "-C", "-K", "-M", "-N", "-m", "-p", "--apple-load-keychain", "--apple-use-keychain",
    ] {
        let parsed = parse(&[flag, "k"]).unwrap();
        assert_eq!(parsed.hash, HashAlg::Sha256);
        assert_eq!(parsed.lifetime, None);
        assert!(!parsed.confirm && !parsed.biometric && !parsed.no_biometric);
        assert_eq!(added(parsed), args(&["k"]));
    }
}

#[test]
fn ignored_flags_may_stand_anywhere() {
    for list in [
        vec!["-K", "-t", "5", "-c", "a", "--", "b"],
        vec!["-t", "5", "-K", "-c", "a", "--", "b"],
        vec!["-t", "5", "-c", "a", "-K", "--", "b"],
    ] {
        let parsed = parse(&list).unwrap();
        assert_eq!(parsed.lifetime, Some(5));
        assert!(parsed.confirm);
        assert_eq!(added(parsed), args(&["a", "b"]));
    }
}

#[test]
fn defaults_are_wanted_where_nothing_is_named() {
    assert!(wants_defaults(&args(&[])));
    assert!(wants_defaults(&args(&["-c", "-K", "--biometric"])));
    assert!(!wants_defaults(&args(&["-l"])));
    assert!(!wants_defaults(&args(&["a"])));
    assert!(!wants_defaults(&args(&["--bogus"])));
}

#[test]
fn unknown_flags_are_refused() {
    assert_eq!(refusal(&["-z"]), "unsupported flag: -z");
    assert_eq!(refusal(&["-"]), "unsupported flag: -");
    assert_eq!(refusal(&["--bogus", "key"]), "unsupported flag: --bogus");
}

#[test]
fn everything_after_a_double_dash_is_a_path() {
    let parsed = parse(&["a", "--", "-l", "--", "b"]).unwrap();
    assert_eq!(added(parsed), args(&["a", "-l", "--", "b"]));
    let empty = parse(&["--"]).unwrap();
    assert_eq!(added(empty), args(&["/home/u/.ssh/id_ed25519"]));
}

#[test]
fn biometric_flags_exclude_each_other() {
    assert_eq!(
        refusal(&["--biometric", "--no-biometric", "key"]),
        "--biometric conflicts with --no-biometric"
    );
}

#[test]
fn lifetimes_are_whole_seconds() {
    assert_eq!(parse_lifetime("0").unwrap(), 0);
    assert_eq!(parse_lifetime("+7").unwrap(), 7);
    assert_eq!(parse_lifetime("007").unwrap(), 7);
    assert_eq!(parse_lifetime("18446744073709551615").unwrap(), u64::MAX);
    for bad in ["", "+", "-1", "1h", " 1", "1.5", "18446744073709551616", "99999999999999999999x"] {
        match parse_lifetime(bad) {
            Err(CliError::InvalidConfig(message)) => assert_eq!(
                message,
                format!("-t requires an integer number of seconds, got {:?}", bad)
            ),
            other => panic!("unexpected {:?}", other),
        }
    }
    assert_eq!(
        refusal(&["-t", "a\"b"]),
        "-t requires an integer number of seconds, got \"a\\\"b\""
    );
}

#[test]
fn hashes_are_named_in_any_case() {
    assert_eq!(parse_hash("sha256").unwrap(), HashAlg::Sha256);
    assert_eq!(parse_hash("Sha512").unwrap(), HashAlg::Sha512);
    match parse_hash("MD5") {
        Err(CliError::InvalidConfig(message)) => {
            assert_eq!(message, "-E requires sha256 or sha512, got \"md5\"");
        }
        other => panic!("unexpected {:?}", other),
    }
}

#[test]
fn help_comes_before_every_error() {
    for flag in ["-h", "--help", "-?"] {
        assert!(wants_help(&args(&["--bogus", flag])));
        assert!(matches!(
            invocation(&args(&["--bogus", flag]), defaults()),
            Ok(Invocation::Help)
        ));
    }
    assert!(!wants_help(&args(&["-H", "key"])));
    assert!(matches!(invocation(&args(&["key"]), defaults()), Ok(Invocation::Run(_))));
    assert!(invocation(&args(&["--bogus"]), defaults()).is_err());
    assert!(HELP.starts_with("gitway-add — load SSH keys into the gitway agent"));
    assert!(HELP.ends_with("accepted and ignored for compatibility."));
}
