use gitway::biometric::{
    auto_unlock, fingerprint_of, key_id_from_fingerprint, released_passphrase, AutoUnlock,
    BiometricError, Tier,
    UnlockMode, KEY_ID_PREFIX,
};
use gitway::errors::{exit_for, process_status, CliError};
use gitway::secret::Secret;
use gitway::vault::{
    backend, runtime_failed, worker_panicked, Backend, BiometricVault, Platform, UnsupportedVault,
};

#[test]
fn key_id_round_trips_through_fingerprint_of() {
    let id = format!("{KEY_ID_PREFIX}SHA256:abc123");
    assert_eq!(fingerprint_of(&id), "SHA256:abc123");
}

#[test]
fn fingerprint_of_tolerates_missing_prefix() {
    assert_eq!(fingerprint_of("SHA256:bare"), "SHA256:bare");
}

#[test]
fn tier_tokens_are_stable() {
    assert_eq!(Tier::HardwareBound.as_str(), "hardware-bound");
    assert_eq!(Tier::DpapiConsent.as_str(), "dpapi-consent");
    assert_eq!(Tier::Advisory.as_str(), "advisory");
    assert_eq!(Tier::Unsupported.as_str(), "unsupported");
}

#[test]
fn auto_unlock_debug_never_leaks_the_passphrase() {
    let rendered = AutoUnlock::Passphrase(Secret::new("hunter2".to_owned())).redacted();
    assert_eq!(rendered, "Passphrase(<redacted>)");
    assert!(!rendered.contains("hunter2"));
}

#[test]
fn other_outcomes_are_rendered_by_name() {
    assert_eq!(AutoUnlock::Stale.redacted(), "Stale");
    assert_eq!(AutoUnlock::Fallback.redacted(), "Fallback");
}

#[test]
fn key_ids_are_built_from_fingerprints_and_back() {
    let id = key_id_from_fingerprint("SHA256:abc");
    assert_eq!(id, "gitway:ssh:SHA256:abc");
    assert_eq!(fingerprint_of(&id), "SHA256:abc");
    assert_eq!(key_id_from_fingerprint(fingerprint_of(&id)), id);
    assert_eq!(key_id_from_fingerprint(""), "gitway:ssh:");
    assert_eq!(fingerprint_of("gitway:ssh:"), "");
    assert_eq!(fingerprint_of("gitway:ssh"), "gitway:ssh");
    assert_eq!(fingerprint_of("gitway:ssh:gitway:ssh:x"), "gitway:ssh:x");
    assert_eq!(fingerprint_of("gïtway:ssh:x"), "gïtway:ssh:x");
}

#[test]
fn flags_resolve_to_one_mode() {
    assert_eq!(UnlockMode::from_flags(false, false), UnlockMode::Auto);
    assert_eq!(UnlockMode::from_flags(true, false), UnlockMode::Enroll);
    assert_eq!(UnlockMode::from_flags(false, true), UnlockMode::Disabled);
    assert_eq!(UnlockMode::from_flags(true, true), UnlockMode::Disabled);
}

#[test]
fn descriptions_are_honest_about_the_tier() {
    assert_eq!(
        Tier::HardwareBound.description(),
        "hardware-bound (Secure Enclave); the secret is released only on a \
         biometric or passcode match"
    );
    assert_eq!(
        Tier::DpapiConsent.description(),
        "DPAPI-encrypted at rest; Windows Hello consent gates the read but is \
         not cryptographically bound to it"
    );
    assert_eq!(
        Tier::Advisory.description(),
        "advisory gate — fprintd verifies your fingerprint, but the passphrase \
         is protected by your login keyring, not by the fingerprint; a local \
         attacker with an unlocked session can bypass the fingerprint check; \
         treat this as convenience, not a security boundary"
    );
    assert_eq!(
        Tier::Unsupported.description(),
        "no biometric backend is available on this build"
    );
}

#[test]
fn every_failure_collapses_to_none() {
    assert!(released_passphrase(Err(BiometricError::NotEnrolled)).is_none());
    assert!(released_passphrase(Err(BiometricError::Cancelled)).is_none());
    assert!(released_passphrase(Err(BiometricError::Unavailable("x".to_owned()))).is_none());
    assert!(released_passphrase(Err(BiometricError::Backend("x".to_owned()))).is_none());
    let released = released_passphrase(Ok(Secret::new("hunter2".to_owned())));
    assert_eq!(released.as_ref().map(Secret::as_str), Some("hunter2"));
}

#[test]
fn errors_have_messages_and_exit_codes() {
    let cases = vec![
        (BiometricError::NotEnrolled, "key is not enrolled for biometric unlock", 3),
        (
            BiometricError::Cancelled,
            "biometric verification was cancelled or did not match",
            73,
        ),
        (
            BiometricError::Unavailable("no sensor".to_owned()),
            "biometric unlock is unavailable: no sensor",
            78,
        ),
        (BiometricError::Backend("boom".to_owned()), "biometric backend error: boom", 1),
    ];
    for (error, message, code) in cases {
        assert_eq!(error.to_string(), message);
        assert_eq!(exit_for(&error), code);
    }
}

#[test]
fn command_line_errors_have_exit_codes() {
    assert_eq!(CliError::InvalidConfig("x".to_owned()).exit_code(), 2);
    assert_eq!(CliError::NoKeyFound.exit_code(), 3);
    assert_eq!(CliError::Signing("x".to_owned()).exit_code(), 1);
}

#[test]
fn process_status_saturates_to_the_general_error() {
    assert_eq!(process_status(0), 0);
    assert_eq!(process_status(78), 78);
    assert_eq!(process_status(255), 255);
    assert_eq!(process_status(256), 1);
    assert_eq!(process_status(u32::MAX), 1);
}

#[test]
fn backends_follow_build_and_platform() {
    assert_eq!(backend(true, Platform::Linux), Backend::Linux);
    assert_eq!(backend(true, Platform::Macos), Backend::Macos);
    assert_eq!(backend(true, Platform::Windows), Backend::Windows);
    assert_eq!(backend(true, Platform::Other), Backend::Unsupported);
    assert_eq!(backend(false, Platform::Linux), Backend::Unsupported);
    assert_eq!(Backend::Linux.binding_tier(), Tier::Advisory);
    assert_eq!(Backend::Macos.binding_tier(), Tier::HardwareBound);
    assert_eq!(Backend::Windows.binding_tier(), Tier::DpapiConsent);
    assert_eq!(Backend::Unsupported.binding_tier(), Tier::Unsupported);
}

#[test]
fn the_unsupported_backend_refuses_everything() {
    let disabled = UnsupportedVault { biometric_enabled: false };
    let why = "biometric unlock is unavailable: this build was compiled without the \
               `biometric` feature";
    assert!(!disabled.is_available());
    assert_eq!(disabled.binding_tier(), Tier::Unsupported);
    assert_eq!(disabled.reason().to_string(), why);
    let secret = Secret::new("hunter2".to_owned());
    assert_eq!(disabled.store("id", &secret).map_err(|e| e.to_string()), Err(why.to_owned()));
    assert_eq!(disabled.delete("id").map_err(|e| e.to_string()), Err(why.to_owned()));
    assert_eq!(disabled.list().map_err(|e| e.to_string()), Err(why.to_owned()));
    assert!(disabled.retrieve("id").is_err());
    assert!(auto_unlock(&disabled, "id").is_none());
    let elsewhere = UnsupportedVault { biometric_enabled: true };
    assert_eq!(
        elsewhere.reason().to_string(),
        "biometric unlock is unavailable: no biometric backend is available for this platform"
    );
}

#[test]
fn a_panicked_worker_is_a_backend_error() {
    assert_eq!(
        worker_panicked().to_string(),
        "biometric backend error: biometric worker thread panicked"
    );
    assert_eq!(
        runtime_failed("no threads").to_string(),
        "biometric backend error: tokio runtime init: no threads"
    );
}

#[test]
fn secrets_are_read_from_buffers_and_cleared() {
    let mut buffer = "pässword".as_bytes().to_vec();
    let secret = Secret::from_buffer(&mut buffer);
    assert!(buffer.is_empty());
    assert_eq!(secret.as_ref().map(Secret::as_str), Some("pässword"));

    let mut invalid = vec![0x66, 0xff];
    assert!(Secret::from_buffer(&mut invalid).is_none());
    assert!(invalid.is_empty());

    let secret = Secret::new("hunter2".to_owned());
    assert_eq!(secret.as_str(), "hunter2");
}
