use gitway::biometric::{key_id_from_fingerprint, BiometricError, EnrolledKey};
use gitway::fprintd::{self, Probe, Verification};
use gitway::keychain;
use gitway::keyring;
use gitway::locker;
use gitway::vault::{Outcome, Request};

fn failure(outcome: Outcome) -> String {
    match outcome {
        Outcome::Failed(error) => error.to_string(),
        _ => panic!("expected a failure"),
    }
}

fn listing(outcome: Outcome) -> Vec<EnrolledKey> {
    match outcome {
        Outcome::Listed(keys) => keys,
        _ => panic!("expected a listing"),
    }
}

fn released(outcome: Outcome) -> String {
    match outcome {
        Outcome::Released(secret) => secret.as_str().to_owned(),
        _ => panic!("expected a secret"),
    }
}

fn pairs(list: &[(&str, &str)]) -> Vec<(String, String)> {
    list.iter().map(|(a, b)| ((*a).to_owned(), (*b).to_owned())).collect()
}

// ── fprintd ──────────────────────────────────────────────────────────────────

fn status(result: &str, done: bool) -> fprintd::Reply {
    fprintd::Reply::Status { result: result.to_owned(), done }
}

fn scanning() -> Verification {
    let mut check = Verification::start();
    for step in [
        fprintd::Step::SystemBus,
        fprintd::Step::Manager,
        fprintd::Step::DefaultDevice,
        fprintd::Step::DevicePath,
        fprintd::Step::DeviceProxy,
    ] {
        assert_eq!(check.step(), step);
        check.reply(fprintd::Reply::Done);
    }
    assert_eq!(check.step(), fprintd::Step::EnrolledFingers);
    check.reply(fprintd::Reply::Fingers(2));
    for step in [fprintd::Step::Claim, fprintd::Step::Subscribe, fprintd::Step::VerifyStart] {
        assert_eq!(check.step(), step);
        check.reply(fprintd::Reply::Done);
    }
    assert_eq!(check.step(), fprintd::Step::AwaitStatus);
    check
}

fn release(mut check: Verification) -> Result<(), String> {
    assert_eq!(check.step(), fprintd::Step::VerifyStop);
    check.reply(fprintd::Reply::Failed("ignored".to_owned()));
    assert_eq!(check.step(), fprintd::Step::Release);
    check.reply(fprintd::Reply::Done);
    assert_eq!(check.step(), fprintd::Step::Finished);
    check.outcome().map_err(|e| e.to_string())
}

const CANCELLED: &str = "biometric verification was cancelled or did not match";

#[test]
fn a_match_verifies() {
    let mut check = scanning();
    check.reply(status("verify-retry-scan", false));
    check.reply(status("verify-match", false));
    assert_eq!(check.step(), fprintd::Step::AwaitStatus);
    check.reply(status("verify-match", true));
    assert_eq!(release(check), Ok(()));
}

#[test]
fn anything_else_cancels_and_releases() {
    for reply in [
        status("verify-no-match", true),
        status("", true),
        fprintd::Reply::Ended,
        fprintd::Reply::TimedOut,
    ] {
        let mut check = scanning();
        check.reply(reply);
        assert_eq!(release(check), Err(CANCELLED.to_owned()));
    }
    let mut check = scanning();
    check.reply(fprintd::Reply::Failed("bad".to_owned()));
    assert_eq!(release(check), Err("biometric backend error: verify args: bad".to_owned()));
}

#[test]
fn a_claimed_device_is_released_after_a_failed_start() {
    let cases = vec![
        (7, "biometric backend error: verify signal: x"),
        (8, "biometric backend error: verify start: x"),
    ];
    for (succeeding, message) in cases {
        let mut check = Verification::start();
        for i in 0..succeeding {
            check.reply(if i == 5 { fprintd::Reply::Fingers(1) } else { fprintd::Reply::Done });
        }
        check.reply(fprintd::Reply::Failed("x".to_owned()));
        assert_eq!(release(check), Err(message.to_owned()));
    }
}

#[test]
fn an_unclaimed_device_needs_no_release() {
    let cases = vec![
        (0, "biometric unlock is unavailable: system bus: x"),
        (1, "biometric unlock is unavailable: fprintd manager: x"),
        (2, "biometric unlock is unavailable: no fingerprint device: x"),
        (3, "biometric backend error: device path: x"),
        (4, "biometric backend error: device proxy: x"),
        (
            5,
            "biometric unlock is unavailable: no fingerprints are enrolled with fprintd (run \
             `fprintd-enroll`)",
        ),
        (6, "biometric backend error: claim device: x"),
    ];
    for (succeeding, message) in cases {
        let mut check = Verification::start();
        for i in 0..succeeding {
            check.reply(if i == 5 { fprintd::Reply::Fingers(1) } else { fprintd::Reply::Done });
        }
        check.reply(fprintd::Reply::Failed("x".to_owned()));
        assert_eq!(check.step(), fprintd::Step::Finished);
        assert_eq!(check.outcome().map_err(|e| e.to_string()), Err(message.to_owned()));
    }
    let mut check = Verification::start();
    for _ in 0..5 {
        check.reply(fprintd::Reply::Done);
    }
    check.reply(fprintd::Reply::Fingers(0));
    assert_eq!(check.step(), fprintd::Step::Finished);
    assert!(check.outcome().is_err());
}

#[test]
fn the_probe_needs_everything() {
    let all = Probe::SystemBus.after(true).after(true).after(true).after(true);
    assert_eq!(all, Probe::Available);
    assert_eq!(Probe::SystemBus.after(true), Probe::Manager);
    assert_eq!(Probe::SystemBus.after(true).after(false), Probe::Unavailable);
    assert_eq!(
        Probe::SystemBus.after(true).after(true).after(true).after(false),
        Probe::Unavailable
    );
    assert_eq!(Probe::Unavailable.after(true), Probe::Unavailable);
    assert_eq!(fprintd::VERIFY_TIMEOUT_SECS, 30);
    assert_eq!(fprintd::PROBE_TIMEOUT_SECS, 5);
}

// ── Secret Service keyring ───────────────────────────────────────────────────

fn keyring_at_search(request: Request) -> keyring::Session {
    let session = keyring::Session::start(request);
    assert_eq!(session.step(), keyring::Step::Open);
    let session = session.reply(keyring::Reply::Done);
    assert_eq!(session.step(), keyring::Step::Unlock);
    session.reply(keyring::Reply::Failed("still locked".to_owned()))
}

#[test]
fn items_carry_the_attributes_they_are_found_by() {
    assert_eq!(
        keyring::attributes("gitway:ssh:SHA256:abc"),
        vec![
            ("application", "gitway"),
            ("type", "ssh-passphrase"),
            ("key-id", "gitway:ssh:SHA256:abc"),
            ("fingerprint", "SHA256:abc"),
        ]
    );
    assert_eq!(
        keyring::list_query(),
        vec![("application", "gitway"), ("type", "ssh-passphrase")]
    );
    assert_eq!(keyring::query(Request::List, "id"), keyring::list_query());
    for request in [Request::Store, Request::Retrieve, Request::Delete] {
        assert_eq!(keyring::query(request, "id"), keyring::attributes("id"));
    }
    assert!(keyring::REPLACE);
    assert_eq!(keyring::label("gitway:ssh:SHA256:abc"), "Gitway SSH passphrase (SHA256:abc)");
}

#[test]
fn a_stored_item_is_listed_by_its_fingerprint() {
    let id = key_id_from_fingerprint("SHA256:abc");
    let entry = keyring::entry(&pairs(&keyring::attributes(&id)));
    assert_eq!(entry.fingerprint, "SHA256:abc");
    assert_eq!(entry.comment, None);
    assert_eq!(key_id_from_fingerprint(&entry.fingerprint), id);
    let foreign = keyring::entry(&pairs(&[("comment", "me"), ("key-id", "gitway:ssh:SHA256:x")]));
    assert_eq!(foreign.fingerprint, "SHA256:x");
    assert_eq!(foreign.comment.as_deref(), Some("me"));
    let empty = keyring::entry(&Vec::new());
    assert_eq!(empty.fingerprint, "");
    assert_eq!(empty.comment, None);
}

#[test]
fn the_keyring_stores() {
    let session = keyring_at_search(Request::Store);
    assert_eq!(session.step(), keyring::Step::Create);
    let session = session.reply(keyring::Reply::Done);
    assert_eq!(session.step(), keyring::Step::Finished);
    assert!(matches!(session.outcome(), Outcome::Stored));
    let session = keyring_at_search(Request::Store);
    let session = session.reply(keyring::Reply::Failed("full".to_owned()));
    assert_eq!(failure(session.outcome()), "biometric backend error: keyring write: full");
}

#[test]
fn the_keyring_releases_behind_a_fingerprint() {
    let session = keyring_at_search(Request::Retrieve);
    assert_eq!(session.step(), keyring::Step::Search);
    let session = session.reply(keyring::Reply::Found(1));
    assert_eq!(session.step(), keyring::Step::Verify);
    let session = session.reply(keyring::Reply::Verified(Ok(())));
    assert_eq!(session.step(), keyring::Step::ReadSecret);
    let session = session.reply(keyring::Reply::Secret(b"hunter2".to_vec()));
    assert_eq!(released(session.outcome()), "hunter2");
}

#[test]
fn the_keyring_never_prompts_for_an_unknown_key() {
    for request in [Request::Retrieve, Request::Delete] {
        let session = keyring_at_search(request).reply(keyring::Reply::Found(0));
        assert_eq!(session.step(), keyring::Step::Finished);
        assert!(matches!(
            session.outcome(),
            Outcome::Failed(BiometricError::NotEnrolled)
        ));
    }
}

#[test]
fn the_keyring_reports_failures() {
    let session = keyring::Session::start(Request::Retrieve);
    let session = session.reply(keyring::Reply::Failed("no bus".to_owned()));
    assert_eq!(failure(session.outcome()), "biometric unlock is unavailable: keyring: no bus");

    let session = keyring_at_search(Request::Retrieve);
    let session = session.reply(keyring::Reply::Failed("x".to_owned()));
    assert_eq!(failure(session.outcome()), "biometric backend error: keyring search: x");

    let session = keyring_at_search(Request::Retrieve).reply(keyring::Reply::Found(1));
    let session = session.reply(keyring::Reply::Verified(Err(BiometricError::Cancelled)));
    assert_eq!(failure(session.outcome()), CANCELLED);

    let session = keyring_at_search(Request::Retrieve)
        .reply(keyring::Reply::Found(1))
        .reply(keyring::Reply::Verified(Ok(())))
        .reply(keyring::Reply::Failed("x".to_owned()));
    assert_eq!(failure(session.outcome()), "biometric backend error: keyring read: x");

    let session = keyring_at_search(Request::Retrieve)
        .reply(keyring::Reply::Found(1))
        .reply(keyring::Reply::Verified(Ok(())))
        .reply(keyring::Reply::Secret(vec![0xff]));
    assert_eq!(
        failure(session.outcome()),
        "biometric backend error: stored passphrase is not valid UTF-8"
    );

    let session = keyring_at_search(Request::Delete)
        .reply(keyring::Reply::Found(1))
        .reply(keyring::Reply::Failed("x".to_owned()));
    assert_eq!(failure(session.outcome()), "biometric backend error: keyring delete: x");
}

#[test]
fn the_keyring_deletes_and_lists() {
    let session = keyring_at_search(Request::Delete).reply(keyring::Reply::Found(2));
    assert_eq!(session.step(), keyring::Step::Remove);
    assert!(matches!(session.reply(keyring::Reply::Done).outcome(), Outcome::Deleted));

    let session = keyring_at_search(Request::List).reply(keyring::Reply::Found(0));
    assert!(listing(session.outcome()).is_empty());

    let session = keyring_at_search(Request::List).reply(keyring::Reply::Found(2));
    assert_eq!(session.step(), keyring::Step::Attributes);
    assert_eq!(session.position(), 0);
    let session = session.reply(keyring::Reply::Attributes(pairs(&[("fingerprint", "a")])));
    assert_eq!(session.step(), keyring::Step::Attributes);
    assert_eq!(session.position(), 1);
    let session = session.reply(keyring::Reply::Attributes(pairs(&[("fingerprint", "b")])));
    let keys = listing(session.outcome());
    assert_eq!(keys.len(), 2);
    assert_eq!(keys[0].fingerprint, "a");
    assert_eq!(keys[1].fingerprint, "b");

    let session = keyring_at_search(Request::List)
        .reply(keyring::Reply::Found(1))
        .reply(keyring::Reply::Failed("x".to_owned()));
    assert_eq!(failure(session.outcome()), "biometric backend error: keyring attributes: x");
}

// ── Keychain ─────────────────────────────────────────────────────────────────

#[test]
fn keychain_statuses_are_mapped() {
    assert!(matches!(keychain::map_error(-25300), BiometricError::NotEnrolled));
    assert!(matches!(keychain::map_error(-128), BiometricError::Cancelled));
    assert!(matches!(keychain::map_error(-25293), BiometricError::Cancelled));
    assert_eq!(
        keychain::map_error(-34018).to_string(),
        "biometric backend error: keychain error -34018"
    );
    assert_eq!(
        keychain::map_error(i32::MIN).to_string(),
        "biometric backend error: keychain error -2147483648"
    );
    assert_eq!(keychain::map_error(0).to_string(), "biometric backend error: keychain error 0");
    assert_eq!(keychain::account_of("gitway:ssh:SHA256:abc"), "SHA256:abc");
    assert_eq!(keychain::label("gitway:ssh:SHA256:abc"), "Gitway SSH passphrase (SHA256:abc)");
}

#[test]
fn the_keychain_overwrites_on_store() {
    for reply in [keychain::Reply::Done, keychain::Reply::Failed(-25300)] {
        let session = keychain::Session::start(Request::Store);
        assert_eq!(session.step(), keychain::Step::Clear);
        let session = session.reply(reply);
        assert_eq!(session.step(), keychain::Step::Write);
        assert!(matches!(session.reply(keychain::Reply::Done).outcome(), Outcome::Stored));
    }
}

#[test]
fn the_keychain_releases_and_deletes() {
    let session = keychain::Session::start(Request::Retrieve);
    assert_eq!(session.step(), keychain::Step::Read);
    let session = session.reply(keychain::Reply::Secret(b"hunter2".to_vec()));
    assert_eq!(released(session.outcome()), "hunter2");

    let session = keychain::Session::start(Request::Retrieve);
    let session = session.reply(keychain::Reply::Secret(vec![0xc0]));
    assert_eq!(
        failure(session.outcome()),
        "biometric backend error: stored passphrase is not valid UTF-8"
    );

    let session = keychain::Session::start(Request::Retrieve);
    let session = session.reply(keychain::Reply::Failed(-128));
    assert_eq!(failure(session.outcome()), CANCELLED);

    let session = keychain::Session::start(Request::Delete);
    assert_eq!(session.step(), keychain::Step::Remove);
    assert!(matches!(session.reply(keychain::Reply::Done).outcome(), Outcome::Deleted));
}

#[test]
fn the_keychain_lists_attributes_only() {
    let session = keychain::Session::start(Request::List);
    assert_eq!(session.step(), keychain::Step::Search);
    let session = session.reply(keychain::Reply::Results(vec![
        Some(pairs(&[("acct", "SHA256:a"), ("icmt", "me")])),
        None,
        Some(pairs(&[("svce", "x")])),
    ]));
    let keys = listing(session.outcome());
    assert_eq!(keys.len(), 2);
    assert_eq!(keys[0].fingerprint, "SHA256:a");
    assert_eq!(keys[0].comment.as_deref(), Some("me"));
    assert_eq!(keys[1].fingerprint, "");
    assert_eq!(keys[1].comment, None);

    let session = keychain::Session::start(Request::List);
    let session = session.reply(keychain::Reply::Failed(-25300));
    assert!(listing(session.outcome()).is_empty());

    let session = keychain::Session::start(Request::List);
    let session = session.reply(keychain::Reply::Failed(-1));
    assert_eq!(failure(session.outcome()), "biometric backend error: keychain error -1");
}

// ── Credential Locker ────────────────────────────────────────────────────────

fn lost(code: i32) -> locker::Reply {
    locker::Reply::Failed { code, why: "x".to_owned() }
}

fn opened(request: Request) -> locker::Session {
    let session = locker::Session::start(request);
    assert_eq!(session.step(), locker::Step::Open);
    session.reply(locker::Reply::Done)
}

#[test]
fn the_locker_replaces_an_old_credential() {
    let session = opened(Request::Store);
    assert_eq!(session.step(), locker::Step::FindOld);
    let session = session.reply(locker::Reply::Done);
    assert_eq!(session.step(), locker::Step::RemoveOld);
    let session = session.reply(lost(1));
    assert_eq!(session.step(), locker::Step::Create);
    let session = session.reply(locker::Reply::Done);
    assert_eq!(session.step(), locker::Step::Insert);
    assert!(matches!(session.reply(locker::Reply::Done).outcome(), Outcome::Stored));

    let session = opened(Request::Store).reply(lost(locker::ERROR_NOT_FOUND));
    assert_eq!(session.step(), locker::Step::Create);
    let session = session.reply(lost(1));
    assert_eq!(failure(session.outcome()), "biometric backend error: create credential: x");
    let session = opened(Request::Store).reply(lost(1)).reply(locker::Reply::Done).reply(lost(1));
    assert_eq!(failure(session.outcome()), "biometric backend error: locker write: x");
}

#[test]
fn the_locker_releases_behind_consent() {
    let session = opened(Request::Retrieve);
    assert_eq!(session.step(), locker::Step::Find);
    let session = session.reply(locker::Reply::Done);
    assert_eq!(session.step(), locker::Step::AskConsent);
    let session = session.reply(locker::Reply::Done);
    assert_eq!(session.step(), locker::Step::AwaitConsent);
    let session = session.reply(locker::Reply::Consent(true));
    assert_eq!(session.step(), locker::Step::ReadPassword);
    let session = session.reply(locker::Reply::Password(Some("hunter2".to_owned())));
    assert_eq!(released(session.outcome()), "hunter2");
}

#[test]
fn the_locker_reports_failures() {
    let session = locker::Session::start(Request::List).reply(lost(1));
    assert_eq!(failure(session.outcome()), "biometric backend error: credential locker: x");
    let session = opened(Request::Retrieve).reply(lost(locker::ERROR_NOT_FOUND));
    assert_eq!(failure(session.outcome()), "key is not enrolled for biometric unlock");
    let session = opened(Request::Delete).reply(lost(5));
    assert_eq!(failure(session.outcome()), "biometric backend error: locker read: x");
    let asking = || opened(Request::Retrieve).reply(locker::Reply::Done);
    assert_eq!(
        failure(asking().reply(lost(1)).outcome()),
        "biometric backend error: hello request: x"
    );
    let awaiting = || asking().reply(locker::Reply::Done);
    assert_eq!(
        failure(awaiting().reply(lost(1)).outcome()),
        "biometric backend error: hello result: x"
    );
    assert_eq!(failure(awaiting().reply(locker::Reply::Consent(false)).outcome()), CANCELLED);
    let reading = || awaiting().reply(locker::Reply::Consent(true));
    assert_eq!(
        failure(reading().reply(lost(1)).outcome()),
        "biometric backend error: locker password: x"
    );
    assert_eq!(
        failure(reading().reply(locker::Reply::Password(Some(String::new()))).outcome()),
        "biometric backend error: stored passphrase was empty"
    );
    assert_eq!(
        failure(reading().reply(locker::Reply::Password(None)).outcome()),
        "biometric backend error: stored passphrase is not valid UTF-8"
    );
    let session = opened(Request::Delete).reply(locker::Reply::Done);
    assert_eq!(session.step(), locker::Step::Remove);
    assert_eq!(failure(session.reply(lost(1)).outcome()), "biometric backend error: locker delete: x");
    let session = opened(Request::List).reply(lost(1));
    assert_eq!(failure(session.outcome()), "biometric backend error: locker list: x");
}

#[test]
fn the_locker_deletes_and_lists() {
    let session = opened(Request::Delete).reply(locker::Reply::Done).reply(locker::Reply::Done);
    assert!(matches!(session.outcome(), Outcome::Deleted));
    let session = opened(Request::List);
    assert_eq!(session.step(), locker::Step::FindAll);
    let session =
        session.reply(locker::Reply::Names(vec![Some("SHA256:a".to_owned()), None]));
    let keys = listing(session.outcome());
    assert_eq!(keys.len(), 2);
    assert_eq!(keys[0].fingerprint, "SHA256:a");
    assert_eq!(keys[1].fingerprint, "");
    assert!(keys.iter().all(|key| key.comment.is_none()));
    let session = opened(Request::List).reply(lost(locker::ERROR_NOT_FOUND));
    assert!(listing(session.outcome()).is_empty());
    assert_eq!(locker::ERROR_NOT_FOUND as u32, 0x8007_0490);
    assert_eq!(locker::account_of("gitway:ssh:SHA256:abc"), "SHA256:abc");
    assert!(locker::hello_available(Some(true)));
    assert!(!locker::hello_available(Some(false)));
    assert!(!locker::hello_available(None));
}
