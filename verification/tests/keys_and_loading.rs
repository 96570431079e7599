use gitway::agent::{list, removal, removed_line, Held, Identity, Removal};
use gitway::biometric::{
    auto_unlock, auto_unlock_passphrase, judge_release, key_id, AutoUnlock, BiometricError,
    EnrolledKey, Tier, UnlockMode,
};
use gitway::enroll;
use gitway::errors::{CliError, ReadFailure};
use gitway::forget;
use gitway::keys::{HashAlg, PrivateKey, PublicKey};
use gitway::load;
use gitway::report::{Document, Line, Output, OutputMode, Stream};
use gitway::secret::Secret;
use gitway::vault::BiometricVault;

use std::cell::RefCell;
use std::collections::HashMap;

// The published Ed25519 example key of the `ssh-key` crate.
const SEED: [u8; 32] = [
    0xb6, 0x06, 0xc2, 0x22, 0xd1, 0x0c, 0x16, 0xda, 0xe1, 0x6c, 0x70, 0xa4, 0xd4, 0x51, 0x73, 0x47,
    0x2e, 0xc6, 0x17, 0xe0, 0x5c, 0x65, 0x69, 0x20, 0xd2, 0x6e, 0x56, 0xc0, 0x8f, 0xb5, 0x91, 0xed,
];
const FINGERPRINT: &str = "SHA256:UCUiLr7Pjs9wFFJMDByLgc3NrtdU344OgUM45wZPcIQ";
const FINGERPRINT_512: &str = "SHA512:\
                               8Hm4eNTiYk9l6WR85IqY+UK4AXajRf5auLD/QIxCZQLwGpDiEDiXZ0ZttPuhyG8IHsWbt2zu8G0+G6VIVXoHhA";
const KEY_ID: &str = "gitway:ssh:SHA256:UCUiLr7Pjs9wFFJMDByLgc3NrtdU344OgUM45wZPcIQ";
const PUBLIC: &str = "ssh-ed25519 \
                      AAAAC3NzaC1lZDI1NTE5AAAAILM+rvN+ot98qgEN796jTiQfZfG1KaT0PtFDJ/XFSqti";

fn ssh_private() -> ssh_key::PrivateKey {
    let pair = ssh_key::private::Ed25519Keypair::from_seed(&SEED);
    let mut key = ssh_key::PrivateKey::from(pair);
    key.set_comment("user@example.com");
    key
}

fn plain_pem() -> String {
    ssh_private().to_openssh(ssh_key::LineEnding::LF).unwrap().to_string()
}

fn encrypted_pem(passphrase: &str) -> String {
    let kdf = ssh_key::Kdf::Bcrypt { salt: vec![7; 16], rounds: 1 };
    ssh_private()
        .encrypt_with(ssh_key::Cipher::Aes256Ctr, kdf, 42, passphrase)
        .unwrap()
        .to_openssh(ssh_key::LineEnding::LF)
        .unwrap()
        .to_string()
}

fn unread(missing: bool, why: &str) -> Result<String, ReadFailure> {
    Err(ReadFailure { missing, why: why.to_owned() })
}

fn secret(text: &str) -> Secret {
    Secret::new(text.to_owned())
}

fn public_key() -> PublicKey {
    match PublicKey::from_openssh(PUBLIC) {
        Ok(key) => key,
        Err(message) => panic!("{}", message),
    }
}

fn private_key(pem: &str) -> PrivateKey {
    match PrivateKey::from_openssh(pem) {
        Ok(key) => key,
        Err(message) => panic!("{}", message),
    }
}

fn line(notice: Option<&Line>) -> Option<(Stream, String)> {
    notice.map(|l| (l.stream, l.text.clone()))
}

#[test]
fn private_keys_are_read_as_they_are() {
    let plain = private_key(&plain_pem());
    assert!(!plain.is_encrypted());
    assert_eq!(plain.fingerprint(), FINGERPRINT);
    assert_eq!(plain.as_str(), plain_pem());

    let locked = private_key(&encrypted_pem("hunter2"));
    assert!(locked.is_encrypted());
    assert_eq!(locked.fingerprint(), FINGERPRINT);
    assert_eq!(key_id(&locked), KEY_ID);

    assert!(PrivateKey::from_openssh("not a key").is_err());
}

#[test]
fn only_the_passphrase_decrypts() {
    let locked = private_key(&encrypted_pem("hunter2"));
    let expected = ssh_key::PrivateKey::from_openssh(encrypted_pem("hunter2"))
        .unwrap()
        .decrypt("hunter2")
        .unwrap();
    assert_eq!(expected.comment(), "user@example.com");
    assert_eq!(
        locked.decrypt(&secret("hunter2")).map(|plain| plain.as_str().to_owned()),
        Ok(expected.to_openssh(ssh_key::LineEnding::LF).unwrap().to_string())
    );
    assert!(locked.decrypt(&secret("wrong")).is_err());
    assert!(locked.decrypt(&secret("")).is_err());
    assert!(private_key(&plain_pem()).decrypt(&secret("hunter2")).is_err());
}

#[test]
fn public_keys_are_read_as_they_are() {
    let key = public_key();
    assert_eq!(key.fingerprint(HashAlg::Sha256), FINGERPRINT);
    assert_eq!(key.fingerprint(HashAlg::Sha512), FINGERPRINT_512);
    assert_eq!(key.algorithm(), "ssh-ed25519");
    assert_eq!(key.to_openssh(""), Ok(PUBLIC.to_owned()));
    assert_eq!(key.to_openssh("me"), Ok(format!("{} me", PUBLIC)));
    assert_eq!(key.as_str(), PUBLIC);
    assert!(PublicKey::from_openssh("ssh-ed25519 x").is_err());
}

#[test]
fn a_working_passphrase_unlocks() {
    let key = private_key(&encrypted_pem("hunter2"));
    let (outcome, forget) = judge_release(&key, Ok(secret("hunter2")));
    match outcome {
        AutoUnlock::Passphrase(passphrase) => assert_eq!(passphrase.as_str(), "hunter2"),
        other => panic!("unexpected {}", other.redacted()),
    }
    assert_eq!(forget, None);
}

#[test]
fn a_stale_passphrase_is_forgotten() {
    let key = private_key(&encrypted_pem("changed"));
    let (outcome, forget) = judge_release(&key, Ok(secret("hunter2")));
    assert!(matches!(outcome, AutoUnlock::Stale));
    assert_eq!(forget, Some(KEY_ID.to_owned()));
}

#[test]
fn a_silent_vault_falls_back() {
    let key = private_key(&encrypted_pem("hunter2"));
    for error in [
        BiometricError::NotEnrolled,
        BiometricError::Cancelled,
        BiometricError::Unavailable("x".to_owned()),
        BiometricError::Backend("x".to_owned()),
    ] {
        let (outcome, forget) = judge_release(&key, Err(error));
        assert!(matches!(outcome, AutoUnlock::Fallback));
        assert_eq!(forget, None);
    }
}

/// A vault in memory.
struct MemoryVault {
    items: RefCell<HashMap<String, String>>,
}

impl MemoryVault {
    fn with(id: &str, passphrase: &str) -> Self {
        let items = HashMap::from([(id.to_owned(), passphrase.to_owned())]);
        MemoryVault { items: RefCell::new(items) }
    }
}

impl BiometricVault for MemoryVault {
    fn is_available(&self) -> bool {
        true
    }

    fn binding_tier(&self) -> Tier {
        Tier::Advisory
    }

    fn store(&self, key_id: &str, passphrase: &Secret) -> Result<(), BiometricError> {
        self.items.borrow_mut().insert(key_id.to_owned(), passphrase.as_str().to_owned());
        Ok(())
    }

    fn retrieve(&self, key_id: &str) -> Result<Secret, BiometricError> {
        let found = self.items.borrow().get(key_id).cloned();
        found.map(Secret::new).ok_or(BiometricError::NotEnrolled)
    }

    fn delete(&self, key_id: &str) -> Result<(), BiometricError> {
        let removed = self.items.borrow_mut().remove(key_id);
        removed.map(|_| ()).ok_or(BiometricError::NotEnrolled)
    }

    fn list(&self) -> Result<Vec<EnrolledKey>, BiometricError> {
        Ok(Vec::new())
    }
}

#[test]
fn the_vault_is_asked_under_the_identifier_of_the_key() {
    let vault = MemoryVault::with(KEY_ID, "hunter2");
    let released = auto_unlock(&vault, KEY_ID);
    assert_eq!(released.as_ref().map(Secret::as_str), Some("hunter2"));
    assert!(auto_unlock(&vault, "gitway:ssh:SHA256:other").is_none());
    match auto_unlock_passphrase(&vault, &private_key(&encrypted_pem("hunter2"))) {
        AutoUnlock::Passphrase(passphrase) => assert_eq!(passphrase.as_str(), "hunter2"),
        other => panic!("unexpected {}", other.redacted()),
    }
    assert_eq!(vault.items.borrow().len(), 1);
}

#[test]
fn a_stale_enrollment_is_deleted_from_the_vault() {
    let vault = MemoryVault::with(KEY_ID, "hunter2");
    let key = private_key(&encrypted_pem("changed"));
    assert!(matches!(auto_unlock_passphrase(&vault, &key), AutoUnlock::Stale));
    assert!(vault.items.borrow().is_empty());
    assert!(matches!(auto_unlock_passphrase(&vault, &key), AutoUnlock::Fallback));
}

// ── Loading ──────────────────────────────────────────────────────────────────

fn load_run(unlock: UnlockMode, loaded: Vec<PublicKey>, count: usize) -> load::Run {
    let paths = (0..count).map(|i| format!("key{}", i)).collect();
    load::Run::start(paths, unlock, loaded)
}

#[test]
fn an_unencrypted_key_is_added_as_it_is() {
    let run = load_run(UnlockMode::Auto, Vec::new(), 1);
    assert_eq!(run.step(), load::Step::ReadFile);
    assert_eq!(run.path(), Some("key0"));
    let run = run.reply(load::Reply::Content(Ok(plain_pem())));
    assert_eq!(run.step(), load::Step::AddKey);
    assert_eq!(run.key_to_add().map(Secret::as_str), Some(plain_pem().as_str()));
    assert_eq!(line(run.notice()), None);
    let run = run.reply(load::Reply::Added);
    assert_eq!(run.step(), load::Step::Finished);
    assert_eq!(line(run.notice()), Some((Stream::Stdout, "Identity added: key0".to_owned())));
    assert!(matches!(run.result(), Ok(0)));
}

#[test]
fn a_loaded_key_is_skipped_without_a_prompt() {
    for unlock in [UnlockMode::Auto, UnlockMode::Disabled] {
        let run = load_run(unlock, vec![public_key()], 2);
        let run = run.reply(load::Reply::Content(Ok(encrypted_pem("hunter2"))));
        assert_eq!(run.step(), load::Step::ReadFile);
        assert_eq!(run.path(), Some("key1"));
        assert_eq!(
            line(run.notice()),
            Some((Stream::Stdout, "Identity already loaded: key0".to_owned()))
        );
    }
    let run = load_run(UnlockMode::Enroll, vec![public_key()], 1);
    let run = run.reply(load::Reply::Content(Ok(encrypted_pem("hunter2"))));
    assert_eq!(run.step(), load::Step::Prompt);
}

#[test]
fn auto_mode_uses_the_released_passphrase() {
    let run = load_run(UnlockMode::Auto, Vec::new(), 1);
    let run = run.reply(load::Reply::Content(Ok(encrypted_pem("hunter2"))));
    assert_eq!(run.step(), load::Step::Retrieve);
    assert_eq!(run.vault_id(), Some(KEY_ID.to_owned()));
    let run = run.reply(load::Reply::Retrieved(Ok(secret("hunter2"))));
    assert_eq!(run.step(), load::Step::AddKey);
    let added = run.key_to_add().map(|s| s.as_str().to_owned()).unwrap();
    let key = ssh_key::PrivateKey::from_openssh(&added).unwrap();
    assert!(!key.is_encrypted());
    assert_eq!(key.fingerprint(ssh_key::HashAlg::Sha256).to_string(), FINGERPRINT);
}

#[test]
fn auto_mode_heals_a_stale_enrollment() {
    let run = load_run(UnlockMode::Auto, Vec::new(), 1);
    let run = run.reply(load::Reply::Content(Ok(encrypted_pem("changed"))));
    let run = run.reply(load::Reply::Retrieved(Ok(secret("hunter2"))));
    assert_eq!(run.step(), load::Step::Delete);
    assert_eq!(run.vault_id(), Some(KEY_ID.to_owned()));
    let run = run.reply(load::Reply::Deleted);
    assert_eq!(run.step(), load::Step::Prompt);
    assert_eq!(
        line(run.notice()),
        Some((
            Stream::Stderr,
            "gitway-add: stored biometric passphrase no longer decrypts key0 — removed stale \
             enrollment"
                .to_owned()
        ))
    );
    let run = run.reply(load::Reply::Typed(secret("changed")));
    assert_eq!(run.step(), load::Step::AddKey);
    let run = run.reply(load::Reply::Added);
    assert!(matches!(run.result(), Ok(0)));
}

#[test]
fn auto_mode_falls_back_to_the_prompt() {
    for error in [
        BiometricError::NotEnrolled,
        BiometricError::Cancelled,
        BiometricError::Unavailable("x".to_owned()),
        BiometricError::Backend("x".to_owned()),
    ] {
        let run = load_run(UnlockMode::Auto, Vec::new(), 1);
        let run = run.reply(load::Reply::Content(Ok(encrypted_pem("hunter2"))));
        let run = run.reply(load::Reply::Retrieved(Err(error)));
        assert_eq!(run.step(), load::Step::Prompt);
        assert_eq!(line(run.notice()), None);
    }
}

#[test]
fn disabled_mode_only_prompts() {
    let run = load_run(UnlockMode::Disabled, Vec::new(), 1);
    let run = run.reply(load::Reply::Content(Ok(encrypted_pem("hunter2"))));
    assert_eq!(run.step(), load::Step::Prompt);
    assert_eq!(run.vault_id(), None);
    let run = run.reply(load::Reply::Typed(secret("wrong")));
    assert_eq!(run.step(), load::Step::Failed);
    match run.result() {
        Err(CliError::Signing(message)) => assert!(message.starts_with("decrypt failed: ")),
        other => panic!("unexpected {:?}", other),
    }
}

#[test]
fn enroll_mode_stores_and_adds() {
    let run = load_run(UnlockMode::Enroll, Vec::new(), 1);
    let run = run.reply(load::Reply::Content(Ok(encrypted_pem("hunter2"))));
    let run = run.reply(load::Reply::Typed(secret("hunter2")));
    assert_eq!(run.step(), load::Step::Store);
    assert_eq!(run.vault_id(), Some(KEY_ID.to_owned()));
    assert_eq!(run.passphrase_to_store().map(Secret::as_str), Some("hunter2"));
    let run = run.reply(load::Reply::Stored(Ok(())));
    assert_eq!(run.step(), load::Step::AddKey);
    assert_eq!(
        line(run.notice()),
        Some((Stream::Stderr, "gitway-add: enrolled key0 for biometric unlock".to_owned()))
    );
    let run = run.reply(load::Reply::Added);
    assert!(matches!(run.result(), Ok(0)));
}

#[test]
fn enroll_mode_loads_although_the_vault_fails() {
    let cases = vec![
        (BiometricError::Unavailable("no bus".to_owned()), 78),
        (BiometricError::Cancelled, 73),
        (BiometricError::Backend("boom".to_owned()), 0),
    ];
    for (error, code) in cases {
        let message = error.to_string();
        let run = load_run(UnlockMode::Enroll, Vec::new(), 1);
        let run = run.reply(load::Reply::Content(Ok(encrypted_pem("hunter2"))));
        let run = run.reply(load::Reply::Typed(secret("hunter2")));
        let run = run.reply(load::Reply::Stored(Err(error)));
        assert_eq!(run.step(), load::Step::AddKey);
        assert_eq!(
            line(run.notice()),
            Some((
                Stream::Stderr,
                format!("gitway-add: warning: biometric enrollment failed: {}", message)
            ))
        );
        let run = run.reply(load::Reply::Added);
        match run.result() {
            Ok(exit) => assert_eq!(exit, code),
            Err(error) => panic!("unexpected {:?}", error),
        }
    }
}

#[test]
fn a_file_without_a_key_ends_the_run() {
    let run = load_run(UnlockMode::Auto, Vec::new(), 2);
    let run = run.reply(load::Reply::Content(Ok("nonsense".to_owned())));
    assert_eq!(run.step(), load::Step::Failed);
    assert_eq!(run.path(), None);
    match run.result() {
        Err(CliError::InvalidConfig(message)) => {
            assert!(message.starts_with("cannot parse key0: "));
        }
        other => panic!("unexpected {:?}", other),
    }
}

#[test]
fn an_unreadable_file_ends_the_run() {
    for (missing, code) in [(true, 3), (false, 1)] {
        let run = load_run(UnlockMode::Auto, Vec::new(), 2);
        let run = run.reply(load::Reply::Content(unread(missing, "no")));
        assert_eq!(run.step(), load::Step::Failed);
        match run.result() {
            Err(error) => {
                assert_eq!(error.exit_code(), code);
                assert!(matches!(error, CliError::Unreadable(failure) if failure.why == "no"));
            }
            Ok(code) => panic!("unexpected {}", code),
        }
        match removal("key", unread(missing, "no")) {
            Err(error) => assert_eq!(error.exit_code(), code),
            Ok(_) => panic!("expected an error"),
        }
    }
}

#[test]
fn a_missing_file_is_not_found_when_enrolling() {
    for (missing, code) in [(true, 3), (false, 1)] {
        let run = enroll_run(3).reply(enroll::Reply::Content(Ok(plain_pem())));
        let run = run.reply(enroll::Reply::Content(unread(missing, "no")));
        assert_eq!(run.step(), enroll::Step::Aborted);
        assert!(run.store_request().is_none());
        let (output, _) = run.report(OutputMode::Human);
        assert_eq!(messages(output).len(), 1);
        let run = run.reply(enroll::Reply::Content(Ok(plain_pem())));
        assert_eq!(run.step(), enroll::Step::Aborted);
        match run.failure() {
            Some(error) => {
                assert_eq!(error.exit_code(), code);
                assert!(matches!(error, CliError::Unreadable(failure) if failure.why == "no"));
            }
            None => panic!("expected an error"),
        }
    }
}

#[test]
fn replies_out_of_turn_change_nothing() {
    let run = load_run(UnlockMode::Auto, Vec::new(), 1);
    let run = run.reply(load::Reply::Added);
    let run = run.reply(load::Reply::Typed(secret("hunter2")));
    assert_eq!(run.step(), load::Step::ReadFile);
    assert_eq!(run.path(), Some("key0"));
}

#[test]
fn a_run_over_nothing_is_finished() {
    let run = load_run(UnlockMode::Auto, Vec::new(), 0);
    assert_eq!(run.step(), load::Step::Finished);
    assert!(matches!(run.result(), Ok(0)));
}

#[test]
fn passphrases_are_prompted_for_by_path() {
    assert_eq!(load::passphrase_prompt("key0"), "Enter passphrase for key0: ");
}

#[test]
fn piped_input_gives_its_first_line() {
    assert_eq!(load::passphrase_from_input("hunter2\n").as_str(), "hunter2");
    assert_eq!(load::passphrase_from_input("hunter2").as_str(), "hunter2");
    assert_eq!(load::passphrase_from_input("hunter2\n\n").as_str(), "hunter2");
    assert_eq!(load::passphrase_from_input("one\ntwo\n").as_str(), "one");
    assert_eq!(load::passphrase_from_input("").as_str(), "");
    assert_eq!(load::passphrase_from_input(" sp ace \n").as_str(), " sp ace ");
}

// ── Enrolling ────────────────────────────────────────────────────────────────

fn enroll_run(count: usize) -> enroll::Run {
    enroll::Run::start((0..count).map(|i| format!("key{}", i)).collect())
}

fn messages(output: Output) -> Vec<String> {
    match output {
        Output::Lines(lines) => lines.into_iter().map(|l| l.text).collect(),
        other => panic!("unexpected {:?}", other),
    }
}

#[test]
fn enrollment_stores_a_checked_passphrase() {
    let run = enroll_run(1);
    assert_eq!(run.step(), enroll::Step::ReadFile);
    assert_eq!(run.path(), Some("key0"));
    let run = run.reply(enroll::Reply::Content(Ok(encrypted_pem("hunter2"))));
    assert_eq!(run.step(), enroll::Step::Prompt);
    assert!(run.store_request().is_none());
    let run = run.reply(enroll::Reply::Typed(secret("hunter2")));
    assert_eq!(run.step(), enroll::Step::Store);
    match run.store_request() {
        Some((id, passphrase)) => {
            assert_eq!(id, KEY_ID);
            assert_eq!(passphrase.as_str(), "hunter2");
        }
        None => panic!("nothing to store"),
    }
    let run = run.reply(enroll::Reply::Stored(Ok(())));
    assert_eq!(run.step(), enroll::Step::Finished);
    assert_eq!(run.path(), None);
    let (output, code) = run.report(OutputMode::Human);
    assert_eq!(messages(output), vec!["gitway: enrolled key0".to_owned()]);
    assert_eq!(code, 0);
    let (output, _) = run.report(OutputMode::Json);
    match output {
        Output::Json { command, document: Document::Results { rows } } => {
            assert_eq!(command, "gitway biometric enroll");
            assert_eq!(rows.len(), 1);
            assert!(rows[0].ok);
            assert_eq!(rows[0].target, "key0");
            assert_eq!(rows[0].fingerprint.as_deref(), Some(FINGERPRINT));
            assert_eq!(rows[0].message, "enrolled");
        }
        other => panic!("unexpected {:?}", other),
    }
}

#[test]
fn enrollment_goes_on_after_failures() {
    let run = enroll_run(5);
    let run = run.reply(enroll::Reply::Content(Ok(plain_pem())));
    let run = run.reply(enroll::Reply::Content(Ok(encrypted_pem("hunter2"))));
    let run = run.reply(enroll::Reply::Typed(secret("wrong")));
    let run = run.reply(enroll::Reply::Content(Ok(encrypted_pem("hunter2"))));
    let run = run.reply(enroll::Reply::Typed(secret("hunter2")));
    let run = run.reply(enroll::Reply::Stored(Err(BiometricError::Cancelled)));
    let run = run.reply(enroll::Reply::Content(Ok(encrypted_pem("hunter2"))));
    let run = run.reply(enroll::Reply::Typed(secret("hunter2")));
    let run = run.reply(enroll::Reply::Stored(Ok(())));
    assert_eq!(run.path(), Some("key4"));
    let run = run.reply(enroll::Reply::Content(Ok("nonsense".to_owned())));
    assert_eq!(run.step(), enroll::Step::Finished);
    let (output, code) = run.report(OutputMode::Human);
    let lines = messages(output);
    assert_eq!(
        lines[0],
        "gitway: key0: key is not passphrase-protected; biometric unlock only applies to \
         encrypted keys"
    );
    assert_eq!(
        lines[1],
        "gitway: key1: passphrase did not decrypt the key; nothing was stored"
    );
    assert_eq!(
        lines[2],
        "gitway: key2: biometric verification was cancelled or did not match"
    );
    assert_eq!(lines[3], "gitway: enrolled key3");
    assert!(lines[4].starts_with("gitway: key4: cannot parse key4: "));
    assert_eq!(lines.len(), 5);
    assert_eq!(code, 2);
}

#[test]
fn a_later_success_keeps_the_code_of_the_last_failure() {
    let run = enroll_run(2);
    let run = run.reply(enroll::Reply::Content(Ok(encrypted_pem("hunter2"))));
    let run = run.reply(enroll::Reply::Typed(secret("hunter2")));
    let run =
        run.reply(enroll::Reply::Stored(Err(BiometricError::Unavailable("x".to_owned()))));
    let run = run.reply(enroll::Reply::Content(Ok(encrypted_pem("hunter2"))));
    let run = run.reply(enroll::Reply::Typed(secret("hunter2")));
    let run = run.reply(enroll::Reply::Stored(Ok(())));
    assert_eq!(run.report(OutputMode::Human).1, 78);
}

#[test]
fn a_failed_prompt_aborts_the_enrollment() {
    let run = enroll_run(2);
    let run = run.reply(enroll::Reply::Content(Ok(encrypted_pem("hunter2"))));
    let run = run.reply(enroll::Reply::PromptFailed);
    assert_eq!(run.step(), enroll::Step::Aborted);
    assert!(run.failure().is_none());
}

#[test]
fn enrollment_is_gated() {
    match enroll::gate(false, Tier::Unsupported, OutputMode::Human) {
        enroll::Gate::Refused(output, code) => {
            assert_eq!(code, 78);
            assert_eq!(
                messages(output),
                vec![
                    "gitway: error: biometric unlock is unavailable: no biometric backend is \
                     available on this build"
                        .to_owned()
                ]
            );
        }
        other => panic!("unexpected {:?}", other),
    }
    match enroll::gate(true, Tier::Advisory, OutputMode::Human) {
        enroll::Gate::Open(Some(line)) => {
            assert_eq!(line.stream, Stream::Stderr);
            assert_eq!(line.text, format!("gitway: NOTE: {}", Tier::Advisory.description()));
        }
        other => panic!("unexpected {:?}", other),
    }
    assert!(matches!(
        enroll::gate(true, Tier::Advisory, OutputMode::Json),
        enroll::Gate::Open(None)
    ));
    assert!(matches!(
        enroll::gate(true, Tier::HardwareBound, OutputMode::Human),
        enroll::Gate::Open(None)
    ));
}

// ── Forgetting ───────────────────────────────────────────────────────────────

fn forget_run(all: bool, files: &[&str]) -> forget::Run {
    match forget::Run::start(all, files.iter().map(|f| (*f).to_owned()).collect()) {
        Ok(run) => run,
        Err(error) => panic!("unexpected {:?}", error),
    }
}

#[test]
fn forgetting_nothing_is_a_usage_error() {
    match forget::Run::start(false, Vec::new()) {
        Err(CliError::InvalidConfig(message)) => {
            assert_eq!(message, "specify one or more key files to forget, or pass --all");
        }
        _ => panic!("expected a usage error"),
    }
}

#[test]
fn files_are_forgotten_one_by_one() {
    let run = forget_run(false, &["a", "b", "c"]);
    assert_eq!(run.step(), forget::Step::ReadFile);
    assert_eq!(run.path(), Some("a"));
    let run = run.reply(forget::Reply::Content(Ok(encrypted_pem("hunter2"))));
    assert_eq!(run.step(), forget::Step::Delete);
    assert_eq!(run.delete_request(), Some(KEY_ID));
    let run = run.reply(forget::Reply::Deleted(Ok(())));
    let run = run.reply(forget::Reply::Content(Ok(plain_pem())));
    let run = run.reply(forget::Reply::Deleted(Err(BiometricError::NotEnrolled)));
    assert_eq!(run.path(), Some("c"));
    let (_, code) = run.report(OutputMode::Human);
    assert_eq!(code, 3);
    let run = run.reply(forget::Reply::Content(unread(true, "gone")));
    assert_eq!(run.step(), forget::Step::Finished);
    let (output, code) = run.report(OutputMode::Human);
    assert_eq!(
        messages(output),
        vec![
            "gitway: forgot a".to_owned(),
            "gitway: b: key is not enrolled for biometric unlock".to_owned(),
            "gitway: c: cannot read c: gone".to_owned(),
        ]
    );
    assert_eq!(code, 3);
}

#[test]
fn an_unreadable_file_is_a_general_failure_when_forgetting() {
    let run = forget_run(false, &["a"]).reply(forget::Reply::Content(unread(false, "denied")));
    let (output, code) = run.report(OutputMode::Human);
    assert_eq!(messages(output), vec!["gitway: a: cannot read a: denied".to_owned()]);
    assert_eq!(code, 1);
    let run = forget_run(false, &["a"]);
    let run = run.reply(forget::Reply::Content(Ok("nonsense".to_owned())));
    assert_eq!(run.report(OutputMode::Human).1, 2);
}

#[test]
fn a_key_and_its_encrypted_forms_share_an_identifier() {
    assert_eq!(key_id(&private_key(&plain_pem())), KEY_ID);
    for passphrase in ["hunter2", "changed"] {
        let key = private_key(&encrypted_pem(passphrase));
        assert_eq!(key_id(&key), KEY_ID);
        let plain = key.decrypt(&secret(passphrase)).unwrap_or_else(|why| panic!("{}", why));
        let plain = private_key(plain.as_str());
        assert!(!plain.is_encrypted());
        assert_eq!(key_id(&plain), KEY_ID);
    }
}

#[test]
fn all_enrollments_are_forgotten_by_fingerprint() {
    let run = forget_run(true, &[]);
    assert_eq!(run.step(), forget::Step::List);
    let listing = vec![
        EnrolledKey { fingerprint: FINGERPRINT.to_owned(), comment: None },
        EnrolledKey { fingerprint: "SHA256:other".to_owned(), comment: Some("c".to_owned()) },
    ];
    let run = run.reply(forget::Reply::Listed(Ok(listing)));
    assert_eq!(run.delete_request(), Some(KEY_ID));
    assert_eq!(run.path(), None);
    let run = run.reply(forget::Reply::Deleted(Ok(())));
    assert_eq!(run.delete_request(), Some("gitway:ssh:SHA256:other"));
    let run = run.reply(forget::Reply::Deleted(Err(BiometricError::Backend("x".to_owned()))));
    assert_eq!(run.step(), forget::Step::Finished);
    let (output, code) = run.report(OutputMode::Json);
    assert_eq!(code, 1);
    match output {
        Output::Json { command, document: Document::Results { rows } } => {
            assert_eq!(command, "gitway biometric forget");
            assert_eq!(rows[0].target, FINGERPRINT);
            assert_eq!(rows[0].fingerprint.as_deref(), Some(FINGERPRINT));
            assert_eq!(rows[0].message, "forgot");
            assert_eq!(rows[1].target, "SHA256:other");
            assert_eq!(rows[1].fingerprint, None);
            assert_eq!(rows[1].message, "biometric backend error: x");
        }
        other => panic!("unexpected {:?}", other),
    }
}

#[test]
fn forgetting_an_empty_keystore_succeeds() {
    let run = forget_run(true, &[]);
    let run = run.reply(forget::Reply::Listed(Ok(Vec::new())));
    assert_eq!(run.step(), forget::Step::Finished);
    let (output, code) = run.report(OutputMode::Human);
    assert!(messages(output).is_empty());
    assert_eq!(code, 0);
}

#[test]
fn a_failed_listing_refuses_to_forget_all() {
    let run = forget_run(true, &[]);
    let run =
        run.reply(forget::Reply::Listed(Err(BiometricError::Unavailable("no bus".to_owned()))));
    assert_eq!(run.step(), forget::Step::Refused);
    let (output, code) = run.report(OutputMode::Human);
    assert_eq!(
        messages(output),
        vec!["gitway: error: biometric unlock is unavailable: no bus".to_owned()]
    );
    assert_eq!(code, 78);
}

// ── The agent ────────────────────────────────────────────────────────────────

fn identity(comment: &str) -> Held {
    Ok(Identity { key: public_key(), comment: comment.to_owned() })
}

#[test]
fn identities_are_listed() {
    let (lines, code) = list(vec![identity("me"), identity("")], false, HashAlg::Sha256);
    let texts: Vec<String> = lines.into_iter().map(|l| l.text).collect();
    assert_eq!(
        texts,
        vec![
            format!("{} me (SSH-ED25519)", FINGERPRINT),
            format!("{}  (SSH-ED25519)", FINGERPRINT),
        ]
    );
    assert!(matches!(code, Ok(0)));
    let (lines, code) = list(vec![identity("me")], true, HashAlg::Sha512);
    assert_eq!(lines[0].text, format!("{} me", PUBLIC));
    assert!(matches!(code, Ok(0)));
    let (lines, _) = list(vec![identity("me")], false, HashAlg::Sha512);
    assert_eq!(lines[0].text, format!("{} me (SSH-ED25519)", FINGERPRINT_512));
}

#[test]
fn no_fingerprint_is_missing_for_another_key() {
    let held = || {
        let odd = |why: &str| Err(CliError::Signing(why.to_owned()));
        vec![identity("a"), odd("first"), identity("b"), odd("second")]
    };
    let (lines, result) = list(held(), false, HashAlg::Sha256);
    let texts: Vec<String> = lines.into_iter().map(|l| l.text).collect();
    assert_eq!(
        texts,
        vec![
            format!("{} a (SSH-ED25519)", FINGERPRINT),
            format!("{} b (SSH-ED25519)", FINGERPRINT),
        ]
    );
    assert!(matches!(result, Err(CliError::Signing(why)) if why == "first"));
    let (lines, result) = list(held(), true, HashAlg::Sha256);
    assert_eq!(lines.len(), 1);
    assert!(matches!(result, Err(CliError::Signing(why)) if why == "first"));
}

#[test]
fn an_empty_agent_says_so() {
    let (lines, code) = list(Vec::new(), false, HashAlg::Sha256);
    assert_eq!(lines.len(), 1);
    assert_eq!(lines[0].stream, Stream::Stdout);
    assert_eq!(lines[0].text, "The agent has no identities.");
    assert!(matches!(code, Ok(1)));
}

#[test]
fn a_key_is_removed_by_its_public_or_private_file() {
    let found = match removal("key.pub", Ok(format!("\u{a0}\n {}\r\n", PUBLIC))) {
        Ok(found) => found,
        Err(error) => panic!("unexpected {:?}", error),
    };
    assert!(matches!(found, Removal::Public(_)));
    assert_eq!(removed_line(&found).text, format!("Identity removed: {}", FINGERPRINT));
    let found = match removal("key", Ok(encrypted_pem("hunter2"))) {
        Ok(found) => found,
        Err(error) => panic!("unexpected {:?}", error),
    };
    assert!(matches!(found, Removal::Private(_)));
    assert_eq!(removed_line(&found).text, format!("Identity removed: {}", FINGERPRINT));
    match removal("junk", Ok("nonsense".to_owned())) {
        Err(CliError::InvalidConfig(message)) => {
            assert!(message.starts_with("cannot parse junk: "));
        }
        _ => panic!("expected an error"),
    }
}
