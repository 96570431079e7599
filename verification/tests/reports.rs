use gitway::agent::{all_removed_line, LockRun, LockStep};
use gitway::biometric::{BiometricError, EnrolledKey, Tier};
use gitway::errors::{CliError, ReadFailure};
use gitway::files::{default_key_candidates, default_key_names, default_key_paths, read_key, resolve_paths};
use gitway::report::{
    emit_error, emit_results, emit_unavailable, run_list, run_status, Document, Outcome, Output,
    OutputMode, Stream,
};
use gitway::secret::Secret;

fn lines(output: Output) -> Vec<(Stream, String)> {
    match output {
        Output::Lines(lines) => lines.into_iter().map(|l| (l.stream, l.text)).collect(),
        other => panic!("unexpected {:?}", other),
    }
}

fn document(output: Output) -> (String, Document) {
    match output {
        Output::Json { command, document } => (command, document),
        other => panic!("unexpected {:?}", other),
    }
}

fn out(text: &str) -> (Stream, String) {
    (Stream::Stdout, text.to_owned())
}

fn err(text: &str) -> (Stream, String) {
    (Stream::Stderr, text.to_owned())
}

fn enrolled() -> Vec<EnrolledKey> {
    vec![
        EnrolledKey { fingerprint: "SHA256:a".to_owned(), comment: Some("me".to_owned()) },
        EnrolledKey { fingerprint: "SHA256:b".to_owned(), comment: None },
    ]
}

#[test]
fn results_are_reported_line_by_line() {
    let results = vec![
        Outcome::ok("a".to_owned(), "SHA256:a".to_owned()),
        Outcome::failed("b".to_owned(), "no".to_owned(), 3),
    ];
    assert_eq!(
        lines(emit_results(OutputMode::Human, "cmd", &results, "enrolled")),
        vec![err("gitway: enrolled a"), err("gitway: b: no")]
    );
    let (command, data) = document(emit_results(OutputMode::Json, "cmd", &results, "enrolled"));
    assert_eq!(command, "cmd");
    match data {
        Document::Results { rows } => {
            assert_eq!(rows.len(), 2);
            assert_eq!(rows[0].message, "enrolled");
            assert_eq!(rows[0].fingerprint.as_deref(), Some("SHA256:a"));
            assert!(!rows[1].ok);
            assert_eq!(rows[1].message, "no");
            assert_eq!(rows[1].fingerprint, None);
        }
        other => panic!("unexpected {:?}", other),
    }
}

#[test]
fn errors_are_reported_with_their_code() {
    let (output, code) = emit_error(&BiometricError::Cancelled, OutputMode::Human, "cmd");
    assert_eq!(
        lines(output),
        vec![err("gitway: error: biometric verification was cancelled or did not match")]
    );
    assert_eq!(code, 73);
    let (output, code) = emit_unavailable(Tier::Unsupported, OutputMode::Json, "cmd");
    assert_eq!(code, 78);
    let (command, data) = document(output);
    assert_eq!(command, "cmd");
    match data {
        Document::Error { exit_code, message } => {
            assert_eq!(exit_code, 78);
            assert_eq!(
                message,
                "biometric unlock is unavailable: no biometric backend is available on this build"
            );
        }
        other => panic!("unexpected {:?}", other),
    }
}

#[test]
fn the_listing_is_printed() {
    let (output, code) = run_list(OutputMode::Human, Ok(enrolled()));
    assert_eq!(lines(output), vec![out("SHA256:a (me)"), out("SHA256:b")]);
    assert_eq!(code, 0);
    let (output, code) = run_list(OutputMode::Human, Ok(Vec::new()));
    assert_eq!(lines(output), vec![err("gitway: no keys are enrolled for biometric unlock")]);
    assert_eq!(code, 0);
    let (output, _) = run_list(OutputMode::Json, Ok(enrolled()));
    match document(output) {
        (command, Document::Enrolled { count, enrolled }) => {
            assert_eq!(command, "gitway biometric list");
            assert_eq!(count, 2);
            assert_eq!(enrolled[0].comment.as_deref(), Some("me"));
        }
        other => panic!("unexpected {:?}", other),
    }
    let (output, code) =
        run_list(OutputMode::Human, Err(BiometricError::Backend("x".to_owned())));
    assert_eq!(lines(output), vec![err("gitway: error: biometric backend error: x")]);
    assert_eq!(code, 1);
}

#[test]
fn the_status_never_fails() {
    let (output, code) = run_status(OutputMode::Human, true, Tier::Advisory, Some(Ok(enrolled())));
    assert_eq!(
        lines(output),
        vec![
            out("available: yes"),
            out("tier:      advisory"),
            (Stream::Stdout, format!("guarantee: {}", Tier::Advisory.description())),
            out("enrolled:  2"),
        ]
    );
    assert_eq!(code, 0);
    let (output, code) = run_status(
        OutputMode::Human,
        true,
        Tier::HardwareBound,
        Some(Err(BiometricError::Backend("x".to_owned()))),
    );
    assert_eq!(lines(output).len(), 3);
    assert_eq!(code, 0);
    let (output, _) = run_status(OutputMode::Human, false, Tier::Unsupported, None);
    assert_eq!(lines(output)[0], out("available: no"));
    let (output, _) = run_status(OutputMode::Json, false, Tier::Unsupported, Some(Ok(enrolled())));
    match document(output) {
        (command, Document::Status { available, tier, description, enrolled_count }) => {
            assert_eq!(command, "gitway biometric status");
            assert!(!available);
            assert_eq!(tier, "unsupported");
            assert_eq!(description, "no biometric backend is available on this build");
            assert_eq!(enrolled_count, None);
        }
        other => panic!("unexpected {:?}", other),
    }
}

#[test]
fn large_counts_are_printed_in_full() {
    let many: Vec<EnrolledKey> = (0..120)
        .map(|_| EnrolledKey { fingerprint: "f".to_owned(), comment: None })
        .collect();
    let (output, _) = run_status(OutputMode::Human, true, Tier::Advisory, Some(Ok(many)));
    assert_eq!(lines(output)[3], out("enrolled:  120"));
}

fn probe(list: &[(&str, bool)]) -> Option<Vec<(String, bool)>> {
    Some(list.iter().map(|(p, e)| ((*p).to_owned(), *e)).collect())
}

#[test]
fn default_keys_are_those_that_exist() {
    assert_eq!(default_key_names(), ["id_ed25519", "id_ecdsa", "id_rsa"]);
    let below_home = vec![
        "/home/u/.ssh/id_ed25519".to_owned(),
        "/home/u/.ssh/id_ecdsa".to_owned(),
        "/home/u/.ssh/id_rsa".to_owned(),
    ];
    assert_eq!(default_key_candidates("/home/u", '/'), below_home);
    assert_eq!(default_key_candidates("/home/u/", '/'), below_home);
    assert_eq!(default_key_candidates("/", '/')[2], "/.ssh/id_rsa");
    assert_eq!(default_key_candidates("", '/')[0], ".ssh/id_ed25519");
    for home in ["/", "/root", "/home/u/", "x"] {
        let joined = std::path::Path::new(home).join(".ssh").join("id_ecdsa");
        assert_eq!(default_key_candidates(home, '/')[1], joined.display().to_string());
    }
    assert_eq!(default_key_candidates("C:\\u", '\\')[1], "C:\\u\\.ssh\\id_ecdsa");
    let found = default_key_paths(probe(&[("a", true), ("b", false), ("c", true)])).unwrap();
    assert_eq!(found, vec!["a".to_owned(), "c".to_owned()]);
    assert!(matches!(
        default_key_paths(probe(&[("a", false)])),
        Err(CliError::NoKeyFound)
    ));
    match default_key_paths(None) {
        Err(CliError::InvalidConfig(message)) => assert_eq!(message, "cannot determine $HOME"),
        other => panic!("unexpected {:?}", other),
    }
}

#[test]
fn given_files_come_before_the_defaults() {
    assert_eq!(resolve_paths(vec!["x".to_owned()], None).unwrap(), vec!["x".to_owned()]);
    assert_eq!(
        resolve_paths(Vec::new(), probe(&[("a", true)])).unwrap(),
        vec!["a".to_owned()]
    );
    assert!(resolve_paths(Vec::new(), None).is_err());
}

#[test]
fn unreadable_keys_have_a_message() {
    match read_key("k", Err(ReadFailure { missing: false, why: "denied".to_owned() })) {
        Err(message) => assert_eq!(message, "cannot read k: denied"),
        Ok(_) => panic!("expected a message"),
    }
    match read_key("k", Ok("nonsense".to_owned())) {
        Err(message) => assert!(message.starts_with("cannot parse k: ")),
        Ok(_) => panic!("expected a message"),
    }
}

fn typed(text: &str) -> Secret {
    Secret::new(text.to_owned())
}

#[test]
fn locking_asks_twice() {
    let run = LockRun::start(true);
    assert_eq!(run.prompt(), "Enter lock passphrase: ");
    let run = run.typed(typed("one"));
    assert_eq!(run.step(), LockStep::Confirm);
    assert_eq!(run.prompt(), "Confirm lock passphrase: ");
    assert!(run.passphrase().is_none());
    let run = run.typed(typed("one"));
    assert_eq!(run.step(), LockStep::Apply);
    assert_eq!(run.passphrase().map(Secret::as_str), Some("one"));
    assert!(run.refusal().is_none());
    assert_eq!(run.done_line().text, "Agent locked.");
}

#[test]
fn locking_refuses_two_different_passphrases() {
    let run = LockRun::start(true).typed(typed("one")).typed(typed("two"));
    assert_eq!(run.step(), LockStep::Refused);
    assert!(run.passphrase().is_none());
    match run.refusal() {
        Some(CliError::InvalidConfig(message)) => {
            assert_eq!(message, "passphrases did not match");
        }
        other => panic!("unexpected {:?}", other),
    }
}

#[test]
fn unlocking_asks_once() {
    let run = LockRun::start(false);
    assert_eq!(run.prompt(), "Enter unlock passphrase: ");
    let run = run.typed(typed("one"));
    assert_eq!(run.passphrase().map(Secret::as_str), Some("one"));
    assert_eq!(run.done_line().text, "Agent unlocked.");
    assert_eq!(all_removed_line().text, "All identities removed.");
}
