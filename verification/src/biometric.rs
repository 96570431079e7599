//! Biometric (local fingerprint) unlock for SSH key passphrases.
//!
//! A fingerprint cannot decrypt a key the way a passphrase can: biometrics only
//! gate access to a stored secret.  A key's passphrase is therefore kept in the
//! operating system's keystore and released after a local biometric check, so
//! that the next load of the key needs no typed input.
//!
//! How strongly the released secret is bound to the biometric differs between
//! platforms, see [`Tier`].

use vstd::prelude::*;

use crate::keys::{private_key_decryption, private_key_fingerprint, optional_text, PrivateKey};
use crate::secret::{secret_text, Secret};
use crate::text::{join2, strip_prefix, without_prefix};
pub use crate::vault::BiometricVault;

verus! {

/// Keystore name prefix.  Every stored item is keyed by
/// `gitway:ssh:<SHA256-fingerprint>`, so that entries are namespaced and can be
/// listed and matched without a separate index.
pub const KEY_ID_PREFIX: &'static str = "gitway:ssh:";

/// How strongly the released passphrase is bound to the biometric on the active
/// platform.  Shown as it is by `gitway biometric status`.
#[derive(Debug, Clone, Copy, PartialEq, Eq, Structural)]
pub enum Tier {
    /// macOS: the secret is released by the Secure Enclave only on a biometric
    /// or passcode match.
    HardwareBound,
    /// Windows: the secret is DPAPI-encrypted at rest; a Hello consent prompt
    /// gates the read but is not cryptographically bound to it.
    DpapiConsent,
    /// Linux: `fprintd` verifies the fingerprint, but the passphrase is
    /// protected by the login keyring.  Convenience, not a security boundary.
    Advisory,
    /// No biometric backend in this build or on this platform.
    Unsupported,
}

impl Tier {
    /// The machine token of the tier.
    pub open spec fn token(self) -> Seq<char> {
        match self {
            Tier::HardwareBound => "hardware-bound"@,
            Tier::DpapiConsent => "dpapi-consent"@,
            Tier::Advisory => "advisory"@,
            Tier::Unsupported => "unsupported"@,
        }
    }

    /// The sentence that describes the guarantee of the tier.
    pub open spec fn guarantee(self) -> Seq<char> {
        match self {
            Tier::HardwareBound =>
                "hardware-bound (Secure Enclave); the secret is released only on a biometric or passcode match"@,
            Tier::DpapiConsent =>
                "DPAPI-encrypted at rest; Windows Hello consent gates the read but is not cryptographically bound to it"@,
            Tier::Advisory =>
                "advisory gate — fprintd verifies your fingerprint, but the passphrase is protected by your login keyring, not by the fingerprint; a local attacker with an unlocked session can bypass the fingerprint check; treat this as convenience, not a security boundary"@,
            Tier::Unsupported => "no biometric backend is available on this build"@,
        }
    }

    /// Stable machine token for JSON output, which is also how a tier is
    /// displayed.
    #[must_use]
    pub fn as_str(self) -> (r: &'static str)
        ensures
            r@ == self.token(),
    {
        match self {
            Tier::HardwareBound => "hardware-bound",
            Tier::DpapiConsent => "dpapi-consent",
            Tier::Advisory => "advisory",
            Tier::Unsupported => "unsupported",
        }
    }

    /// One-line human description of the security guarantee.
    #[must_use]
    pub fn description(self) -> (r: &'static str)
        ensures
            r@ == self.guarantee(),
    {
        match self {
            Tier::HardwareBound =>
                "hardware-bound (Secure Enclave); the secret is released only on a biometric or passcode match",
            Tier::DpapiConsent =>
                "DPAPI-encrypted at rest; Windows Hello consent gates the read but is not cryptographically bound to it",
            Tier::Advisory =>
                "advisory gate — fprintd verifies your fingerprint, but the passphrase is protected by your login keyring, not by the fingerprint; a local attacker with an unlocked session can bypass the fingerprint check; treat this as convenience, not a security boundary",
            Tier::Unsupported => "no biometric backend is available on this build",
        }
    }
}

/// How the key-load path treats biometric unlock, derived from the `--biometric`
/// and `--no-biometric` flags.
#[derive(Debug, Clone, Copy, PartialEq, Eq, Structural)]
pub enum UnlockMode {
    /// Use biometric unlock when the key is enrolled and a backend is available;
    /// otherwise prompt for a passphrase (the default).
    Auto,
    /// Prompt for the passphrase once, store it behind a biometric check, then
    /// load the key (`--biometric`).
    Enroll,
    /// Always prompt for a typed passphrase, even if enrolled
    /// (`--no-biometric`).
    Disabled,
}

impl UnlockMode {
    /// Resolves the mode from the two flags (which are mutually exclusive).
    #[must_use]
    pub fn from_flags(enroll: bool, disabled: bool) -> (r: UnlockMode)
        ensures
            r == UnlockMode::Disabled <==> disabled,
            r == UnlockMode::Enroll <==> enroll && !disabled,
            r == UnlockMode::Auto <==> !enroll && !disabled,
    {
        if disabled {
            UnlockMode::Disabled
        } else if enroll {
            UnlockMode::Enroll
        } else {
            UnlockMode::Auto
        }
    }
}

/// A key enrolled for biometric unlock.  Holds no secret material, only the
/// public fingerprint and an optional comment.
#[derive(Debug, Clone, PartialEq, Eq)]
pub struct EnrolledKey {
    /// `SHA256:...` fingerprint of the enrolled key's public half.
    pub fingerprint: String,
    /// Key comment, when the backend records one.
    pub comment: Option<String>,
}

/// The texts of an [`EnrolledKey`].
pub struct EnrolledKeyView {
    pub fingerprint: Seq<char>,
    pub comment: Option<Seq<char>>,
}

impl View for EnrolledKey {
    type V = EnrolledKeyView;

    open spec fn view(&self) -> EnrolledKeyView {
        EnrolledKeyView {
            fingerprint: self.fingerprint@,
            comment: optional_text(self.comment),
        }
    }
}

/// The texts of a list of enrolled keys.
pub open spec fn keys_view(keys: Seq<EnrolledKey>) -> Seq<EnrolledKeyView> {
    keys.map_values(|key: EnrolledKey| key@)
}

/// Failure modes of a biometric backend.
#[derive(Debug)]
pub enum BiometricError {
    /// No enrollment exists for the requested key.
    NotEnrolled,
    /// The user dismissed the biometric prompt, or the fingerprint did not
    /// match.
    Cancelled,
    /// No usable backend at runtime, with a human-readable reason.
    Unavailable(String),
    /// The keystore or biometric service returned an unexpected error.
    Backend(String),
}

/// A [`BiometricError`] with its text.
pub enum ErrorView {
    NotEnrolled,
    Cancelled,
    Unavailable(Seq<char>),
    Backend(Seq<char>),
}

impl View for BiometricError {
    type V = ErrorView;

    open spec fn view(&self) -> ErrorView {
        match self {
            BiometricError::NotEnrolled => ErrorView::NotEnrolled,
            BiometricError::Cancelled => ErrorView::Cancelled,
            BiometricError::Unavailable(why) => ErrorView::Unavailable(why@),
            BiometricError::Backend(why) => ErrorView::Backend(why@),
        }
    }
}

impl ErrorView {
    /// The message shown for the error.
    pub open spec fn message(self) -> Seq<char> {
        match self {
            ErrorView::NotEnrolled => "key is not enrolled for biometric unlock"@,
            ErrorView::Cancelled => "biometric verification was cancelled or did not match"@,
            ErrorView::Unavailable(why) => "biometric unlock is unavailable: "@ + why,
            ErrorView::Backend(why) => "biometric backend error: "@ + why,
        }
    }
}

impl BiometricError {
    /// The message shown for the error.
    pub fn to_string(&self) -> (r: String)
        ensures
            r@ == self@.message(),
    {
        match self {
            BiometricError::NotEnrolled => "key is not enrolled for biometric unlock".to_owned(),
            BiometricError::Cancelled =>
                "biometric verification was cancelled or did not match".to_owned(),
            BiometricError::Unavailable(why) => join2(
                "biometric unlock is unavailable: ",
                why.as_str(),
            ),
            BiometricError::Backend(why) => join2("biometric backend error: ", why.as_str()),
        }
    }
}

/// Convenience alias for backend results.
pub type Result<T> = core::result::Result<T, BiometricError>;

/// The identifier of a fingerprint in the keystore.
pub open spec fn key_id_of(fingerprint: Seq<char>) -> Seq<char> {
    KEY_ID_PREFIX@ + fingerprint
}

/// The fingerprint that an identifier stands for: the identifier without the
/// prefix, or the identifier itself where it has none.
pub open spec fn fingerprint_in(key_id: Seq<char>) -> Seq<char> {
    match without_prefix(key_id, KEY_ID_PREFIX@) {
        Some(fingerprint) => fingerprint,
        None => key_id,
    }
}

/// Keystore identifier for `key`, derived from its public-key SHA-256
/// fingerprint.  The public half of an encrypted key is in the clear, so this
/// works before decryption.
#[must_use]
pub fn key_id(key: &PrivateKey) -> (r: String)
    ensures
        r@ == key_id_of(private_key_fingerprint(key@)),
{
    join2(KEY_ID_PREFIX, key.fingerprint().as_str())
}

/// Strips the prefix back off a stored item name to recover the bare
/// `SHA256:...` fingerprint for display.  Returns the input unchanged if it
/// carries no prefix.
#[must_use]
pub fn fingerprint_of(key_id: &str) -> (r: &str)
    ensures
        r@ == fingerprint_in(key_id@),
{
    match strip_prefix(key_id, KEY_ID_PREFIX) {
        Some(fingerprint) => fingerprint,
        None => key_id,
    }
}

/// Rebuilds a keystore identifier from a bare `SHA256:...` fingerprint, the
/// inverse of [`fingerprint_of`].
#[must_use]
pub fn key_id_from_fingerprint(fingerprint: &str) -> (r: String)
    ensures
        r@ == key_id_of(fingerprint@),
{
    join2(KEY_ID_PREFIX, fingerprint)
}

/// What an auto-path release attempt gives: the passphrase where the vault
/// released one, and nothing after any failure.
pub open spec fn released(reply: core::result::Result<Seq<char>, ErrorView>) -> Option<Seq<char>> {
    match reply {
        Ok(passphrase) => Some(passphrase),
        Err(_) => None,
    }
}

/// The characters of a released passphrase, or the error of the vault.
pub open spec fn reply_view(reply: Result<Secret>) -> core::result::Result<Seq<char>, ErrorView> {
    match reply {
        Ok(passphrase) => Ok(passphrase@),
        Err(error) => Err(error@),
    }
}

/// What remains of the vault's reply to a request for a stored passphrase on the
/// auto path: every failure (not enrolled, cancelled, unavailable, backend
/// error) becomes `None`.
#[must_use]
pub fn released_passphrase(reply: Result<Secret>) -> (r: Option<Secret>)
    ensures
        secret_text(r) == released(reply_view(reply)),
{
    match reply {
        Ok(passphrase) => Some(passphrase),
        Err(BiometricError::NotEnrolled) => None,
        Err(BiometricError::Cancelled) => None,
        Err(BiometricError::Unavailable(_)) => None,
        Err(BiometricError::Backend(_)) => None,
    }
}

/// Best-effort biometric unlock for the auto path: asks the vault to release the
/// passphrase stored under `key_id`.
///
/// The result is `Some` only when the vault released a passphrase.  Every
/// failure becomes `None`, so the caller silently falls back to the passphrase
/// prompt.  This is what makes biometric unlock purely additive: it never blocks
/// a push.
#[must_use]
pub fn auto_unlock<V: BiometricVault>(vault: &V, key_id: &str) -> (r: Option<Secret>)
    ensures
        exists|reply: Result<Secret>|
            #![trigger reply_view(reply)]
            call_ensures(V::retrieve, (vault, key_id), reply) && secret_text(r) == released(
                reply_view(reply),
            ),
{
    let reply: Result<Secret> = vault.retrieve(key_id);
    let ghost answer = reply;
    let r: Option<Secret> = released_passphrase(reply);
    assert(secret_text(r) == released(reply_view(answer)));
    r
}

/// Outcome of [`auto_unlock_passphrase`], a best-effort biometric unlock of an
/// encrypted key.
pub enum AutoUnlock {
    /// A stored passphrase was released and still decrypts the key.
    Passphrase(Secret),
    /// A stored passphrase existed but no longer decrypts the key, whose
    /// passphrase was changed since enrollment.
    Stale,
    /// Nothing usable: not enrolled, no backend available, cancelled, or a
    /// backend error.
    Fallback,
}

/// An [`AutoUnlock`] with the text of its passphrase.
pub enum AutoUnlockView {
    Passphrase(Seq<char>),
    Stale,
    Fallback,
}

impl View for AutoUnlock {
    type V = AutoUnlockView;

    open spec fn view(&self) -> AutoUnlockView {
        match self {
            AutoUnlock::Passphrase(passphrase) => AutoUnlockView::Passphrase(passphrase@),
            AutoUnlock::Stale => AutoUnlockView::Stale,
            AutoUnlock::Fallback => AutoUnlockView::Fallback,
        }
    }
}

impl AutoUnlockView {
    /// The rendering used in logs and panic messages.
    pub open spec fn rendering(self) -> Seq<char> {
        match self {
            AutoUnlockView::Passphrase(_) => "Passphrase(<redacted>)"@,
            AutoUnlockView::Stale => "Stale"@,
            AutoUnlockView::Fallback => "Fallback"@,
        }
    }
}

impl AutoUnlock {
    /// The debug rendering of the outcome.  It never shows the passphrase.
    pub fn redacted(&self) -> (r: String)
        ensures
            r@ == self@.rendering(),
    {
        match self {
            AutoUnlock::Passphrase(_) => "Passphrase(<redacted>)".to_owned(),
            AutoUnlock::Stale => "Stale".to_owned(),
            AutoUnlock::Fallback => "Fallback".to_owned(),
        }
    }
}

/// The outcome of an auto unlock, from the text of the key and the reply of the
/// vault.
pub open spec fn unlock_outcome(
    pem: Seq<char>,
    reply: core::result::Result<Seq<char>, ErrorView>,
) -> AutoUnlockView {
    match released(reply) {
        Some(passphrase) => if private_key_decryption(pem, passphrase) is Ok {
            AutoUnlockView::Passphrase(passphrase)
        } else {
            AutoUnlockView::Stale
        },
        None => AutoUnlockView::Fallback,
    }
}

/// The enrollment that an outcome asks the vault to forget.
pub open spec fn enrollment_to_forget(pem: Seq<char>, outcome: AutoUnlockView) -> Option<Seq<char>> {
    if outcome is Stale {
        Some(key_id_of(private_key_fingerprint(pem)))
    } else {
        None
    }
}

/// Judges the reply of the vault to a request for the passphrase of an encrypted
/// key.
///
/// A released secret is used only if it still decrypts the key.  Otherwise the
/// outcome is [`AutoUnlock::Stale`], and the second part of the result is the
/// identifier that the vault has to delete, so that the next load does not
/// prompt and fail again.
#[must_use]
pub fn judge_release(key: &PrivateKey, reply: Result<Secret>) -> (r: (AutoUnlock, Option<String>))
    ensures
        r.0@ == unlock_outcome(key@, reply_view(reply)),
        optional_text(r.1) == enrollment_to_forget(key@, r.0@),
{
    match released_passphrase(reply) {
        Some(passphrase) => match key.decrypt(&passphrase) {
            Ok(_) => (AutoUnlock::Passphrase(passphrase), None),
            Err(_) => (AutoUnlock::Stale, Some(key_id(key))),
        },
        None => (AutoUnlock::Fallback, None),
    }
}

/// Best-effort biometric unlock of an encrypted key: asks the vault to release
/// the passphrase stored under [`key_id`] and checks that it still decrypts the
/// key.
///
/// A passphrase that does not is reported as [`AutoUnlock::Stale`], and the
/// vault is asked to delete the enrollment, whether or not that succeeds.
#[must_use]
pub fn auto_unlock_passphrase<V: BiometricVault>(vault: &V, key: &PrivateKey) -> (r: AutoUnlock)
    ensures
        exists|id: &str, reply: Result<Secret>|
            #![trigger id@, reply_view(reply)]
            id@ == key_id_of(private_key_fingerprint(key@)) && call_ensures(
                V::retrieve,
                (vault, id),
                reply,
            ) && r@ == unlock_outcome(key@, reply_view(reply)),
        r is Stale ==> exists|id: &str, reply: Result<()>|
            #![trigger call_ensures(V::delete, (vault, id), reply)]
            id@ == key_id_of(private_key_fingerprint(key@)) && call_ensures(
                V::delete,
                (vault, id),
                reply,
            ),
{
    let id: String = key_id(key);
    let reply: Result<Secret> = vault.retrieve(id.as_str());
    let ghost answer = reply;
    let (outcome, stale): (AutoUnlock, Option<String>) = judge_release(key, reply);
    assert(outcome@ == unlock_outcome(key@, reply_view(answer)));
    match stale {
        Some(stale) => {
            let _ = vault.delete(stale.as_str());
        },
        None => {},
    }
    outcome
}

/// The rendering of a released passphrase does not depend on the passphrase.
pub proof fn rendering_never_leaks_the_passphrase(a: Seq<char>, b: Seq<char>)
    ensures
        AutoUnlockView::Passphrase(a).rendering() == AutoUnlockView::Passphrase(b).rendering(),
{
}

/// Biometric unlock is additive: whatever failure the vault reports, the outcome
/// is a silent fallback to the passphrase prompt, and nothing is forgotten.
pub proof fn every_failure_falls_back(pem: Seq<char>, error: ErrorView)
    ensures
        unlock_outcome(pem, Err(error)) == AutoUnlockView::Fallback,
        enrollment_to_forget(pem, unlock_outcome(pem, Err(error))) is None,
{
}

/// A released passphrase is handed on exactly if it decrypts the key; if it does
/// not, the enrollment of this very key is forgotten.
pub proof fn stale_enrollments_heal(pem: Seq<char>, passphrase: Seq<char>)
    ensures
        unlock_outcome(pem, Ok(passphrase)) == AutoUnlockView::Passphrase(passphrase)
            <==> private_key_decryption(pem, passphrase) is Ok,
        enrollment_to_forget(pem, unlock_outcome(pem, Ok(passphrase))) == (
            if private_key_decryption(pem, passphrase) is Ok {
                None
            } else {
                Some(key_id_of(private_key_fingerprint(pem)))
            }
        ),
{
}

/// Reading the fingerprint back out of the identifier that was built from it
/// gives that fingerprint.
pub proof fn fingerprint_of_key_id(fingerprint: Seq<char>)
    ensures
        fingerprint_in(key_id_of(fingerprint)) == fingerprint,
{
    let id = key_id_of(fingerprint);
    assert(KEY_ID_PREFIX@ =~= id.subrange(0, KEY_ID_PREFIX@.len() as int));
    assert(id.skip(KEY_ID_PREFIX@.len() as int) =~= fingerprint);
}

/// Rebuilding the identifier from the fingerprint that was read out of it gives
/// that identifier, for every identifier that carries the prefix.
pub proof fn key_id_of_fingerprint(key_id: Seq<char>)
    requires
        KEY_ID_PREFIX@.is_prefix_of(key_id),
    ensures
        key_id_of(fingerprint_in(key_id)) == key_id,
{
    assert(key_id =~= KEY_ID_PREFIX@ + key_id.skip(KEY_ID_PREFIX@.len() as int));
}

/// A text without the prefix is its own fingerprint.
pub proof fn fingerprint_of_bare_text(text: Seq<char>)
    requires
        !KEY_ID_PREFIX@.is_prefix_of(text),
    ensures
        fingerprint_in(text) == text,
{
}

/// Every identifier is namespaced by the prefix, and two keys share one only if
/// they share their fingerprint.
pub proof fn key_ids_are_namespaced_and_distinct(a: Seq<char>, b: Seq<char>)
    ensures
        KEY_ID_PREFIX@.is_prefix_of(key_id_of(a)),
        key_id_of(a) == key_id_of(b) ==> a == b,
{
    fingerprint_of_key_id(a);
    fingerprint_of_key_id(b);
    assert(KEY_ID_PREFIX@ =~= key_id_of(a).subrange(0, KEY_ID_PREFIX@.len() as int));
}

/// The tokens of two tiers are equal only where the tiers are.
pub proof fn tier_tokens_are_distinct(a: Tier, b: Tier)
    ensures
        a.token() == b.token() ==> a == b,
{
    reveal_strlit("hardware-bound");
    reveal_strlit("dpapi-consent");
    reveal_strlit("advisory");
    reveal_strlit("unsupported");
    assert(a.token().len() == b.token().len() ==> a == b);
}

/// An encrypted key and its decrypted form have the same identifier, whatever
/// passphrase it was encrypted under: the identifier depends on the public half
/// only.
pub proof fn decryption_keeps_the_key_id(
    encrypted: &PrivateKey,
    passphrase: &Secret,
    plain: Secret,
    decrypted: &PrivateKey,
    id: String,
    decrypted_id: String,
)
    requires
        call_ensures(PrivateKey::decrypt, (encrypted, passphrase), Ok(plain)),
        decrypted@ == plain@,
        call_ensures(key_id, (encrypted,), id),
        call_ensures(key_id, (decrypted,), decrypted_id),
    ensures
        id@ == decrypted_id@,
        id@ == key_id_of(private_key_fingerprint(encrypted@)),
{
}

/// Two encrypted keys whose decrypted forms have the same public half have the
/// same identifier: encrypting a key anew under another passphrase keeps it.
pub proof fn reencryption_keeps_the_key_id(
    one: &PrivateKey,
    other: &PrivateKey,
    passphrase: &Secret,
    other_passphrase: &Secret,
    plain: Secret,
    other_plain: Secret,
    id: String,
    other_id: String,
)
    requires
        call_ensures(PrivateKey::decrypt, (one, passphrase), Ok(plain)),
        call_ensures(PrivateKey::decrypt, (other, other_passphrase), Ok(other_plain)),
        private_key_fingerprint(plain@) == private_key_fingerprint(other_plain@),
        call_ensures(key_id, (one,), id),
        call_ensures(key_id, (other,), other_id),
    ensures
        id@ == other_id@,
{
}

/// The descriptions of two tiers are equal only where the tiers are, and each of
/// them is one line that says something.
pub proof fn tier_descriptions_are_distinct_lines(a: Tier, b: Tier)
    ensures
        a.guarantee() == b.guarantee() ==> a == b,
        a.guarantee().len() > 0,
        !a.guarantee().contains('\n'),
{
    reveal_strlit(
        "hardware-bound (Secure Enclave); the secret is released only on a biometric or passcode match",
    );
    reveal_strlit(
        "DPAPI-encrypted at rest; Windows Hello consent gates the read but is not cryptographically bound to it",
    );
    reveal_strlit(
        "advisory gate — fprintd verifies your fingerprint, but the passphrase is protected by your login keyring, not by the fingerprint; a local attacker with an unlocked session can bypass the fingerprint check; treat this as convenience, not a security boundary",
    );
    reveal_strlit("no biometric backend is available on this build");
    assert(a.guarantee().len() == b.guarantee().len() ==> a == b);
}

/// Every kind of failure has its own message, and a reason is shown as it was
/// given.
pub proof fn messages_show_their_reason(why: Seq<char>)
    ensures
        ErrorView::NotEnrolled.message() == "key is not enrolled for biometric unlock"@,
        ErrorView::Cancelled.message()
            == "biometric verification was cancelled or did not match"@,
        ErrorView::Unavailable(why).message() == "biometric unlock is unavailable: "@ + why,
        ErrorView::Backend(why).message() == "biometric backend error: "@ + why,
{
}

/// The identifier of a key is its fingerprint behind the prefix of our entries.
pub proof fn key_ids_carry_the_prefix(fingerprint: Seq<char>, more: Seq<char>)
    ensures
        key_id_of(fingerprint) == "gitway:ssh:"@ + fingerprint,
        key_id_of(fingerprint + more) == key_id_of(fingerprint) + more,
        fingerprint_in("gitway:ssh:"@ + fingerprint) == fingerprint,
{
    fingerprint_of_key_id(fingerprint);
    assert(KEY_ID_PREFIX@ + (fingerprint + more) =~= KEY_ID_PREFIX@ + fingerprint + more);
}

/// The outcome of an auto unlock: the released passphrase if it decrypts the key,
/// stale if one was released that does not, and a fallback exactly if none was
/// released.  Only a stale enrollment is forgotten, and it is that of the key.
pub proof fn unlocks_are_judged_by_the_key(
    key: &PrivateKey,
    reply: Result<Secret>,
    r: (AutoUnlock, Option<String>),
)
    requires
        call_ensures(judge_release, (key, reply), r),
    ensures
        r.0 is Fallback <==> reply is Err,
        r.0 is Stale <==> (reply matches Ok(passphrase) && private_key_decryption(
            key@,
            passphrase@,
        ) is Err),
        r.0 matches AutoUnlock::Passphrase(used) ==> (reply matches Ok(passphrase) && used@
            == passphrase@ && private_key_decryption(key@, passphrase@) is Ok),
        r.1 is Some <==> r.0 is Stale,
        r.1 matches Some(id) ==> id@ == "gitway:ssh:"@ + private_key_fingerprint(key@),
{
}

/// A vault that releases a passphrase makes it available, and one that fails, in
/// whatever way, makes nothing available.
pub proof fn only_a_release_gives_a_passphrase(reply: Result<Secret>, r: Option<Secret>)
    requires
        call_ensures(released_passphrase, (reply,), r),
    ensures
        r is Some <==> reply is Ok,
        r matches Some(given) ==> (reply matches Ok(passphrase) && given@ == passphrase@),
{
}

/// The two flags and the mode that they stand for.
pub proof fn flags_select_the_unlock_mode(enroll: bool, disabled: bool, mode: UnlockMode)
    requires
        call_ensures(UnlockMode::from_flags, (enroll, disabled), mode),
    ensures
        disabled ==> mode == UnlockMode::Disabled,
        enroll && !disabled ==> mode == UnlockMode::Enroll,
        !enroll && !disabled ==> mode == UnlockMode::Auto,
{
}

/// The tokens of the tiers.
pub proof fn tiers_have_their_tokens()
    ensures
        Tier::HardwareBound.token() == "hardware-bound"@,
        Tier::DpapiConsent.token() == "dpapi-consent"@,
        Tier::Advisory.token() == "advisory"@,
        Tier::Unsupported.token() == "unsupported"@,
{
}

/// The description of a tier says what it is: the hardware-bound tier names the
/// Secure Enclave, the consent tier DPAPI, the advisory tier that it is a gate and
/// no boundary, and the last one that there is no backend.
pub proof fn tiers_promise_what_they_keep()
    ensures
        Tier::HardwareBound.guarantee()
            == "hardware-bound (Secure Enclave); the secret is released only on a biometric or passcode match"@,
        Tier::DpapiConsent.guarantee()
            == "DPAPI-encrypted at rest; Windows Hello consent gates the read but is not cryptographically bound to it"@,
        Tier::Advisory.guarantee()
            == "advisory gate — fprintd verifies your fingerprint, but the passphrase is protected by your login keyring, not by the fingerprint; a local attacker with an unlocked session can bypass the fingerprint check; treat this as convenience, not a security boundary"@,
        Tier::Unsupported.guarantee() == "no biometric backend is available on this build"@,
{
}

/// The rendering of an outcome tells which one it is.
pub proof fn renderings_tell_outcomes_apart(outcome: AutoUnlockView)
    ensures
        outcome is Passphrase ==> outcome.rendering() == "Passphrase(<redacted>)"@,
        outcome is Stale ==> outcome.rendering() == "Stale"@,
        outcome is Fallback ==> outcome.rendering() == "Fallback"@,
{
}

/// A failure, an enrolled key and the outcome of an unlock are seen as they are.
pub proof fn values_are_seen_as_they_are(
    error: BiometricError,
    key: EnrolledKey,
    outcome: AutoUnlock,
)
    ensures
        match error {
            BiometricError::NotEnrolled => error@ is NotEnrolled,
            BiometricError::Cancelled => error@ is Cancelled,
            BiometricError::Unavailable(why) => error@ == ErrorView::Unavailable(why@),
            BiometricError::Backend(why) => error@ == ErrorView::Backend(why@),
        },
        key@.fingerprint == key.fingerprint@,
        key.comment matches Some(comment) ==> key@.comment == Some(comment@),
        key.comment is None ==> key@.comment is None,
        match outcome {
            AutoUnlock::Passphrase(passphrase) => outcome@ == AutoUnlockView::Passphrase(
                passphrase@,
            ),
            AutoUnlock::Stale => outcome@ is Stale,
            AutoUnlock::Fallback => outcome@ is Fallback,
        },
{
}

} // verus!
