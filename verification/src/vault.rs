//! The platform keystores behind one interface.

use vstd::prelude::*;

use crate::biometric::{
    keys_view, BiometricError, EnrolledKey, EnrolledKeyView, ErrorView, Result, Tier,
};
use crate::secret::Secret;
use crate::text::join2;

verus! {

/// Secure storage gated by a local biometric check.
///
/// All methods block.  Implementations never log or otherwise leak the
/// passphrase, and reject stored content that is not UTF-8.
pub trait BiometricVault {
    /// Whether a usable sensor and keystore are reachable right now.  Cheap,
    /// without a prompt, and never hangs.
    fn is_available(&self) -> bool;

    /// The security-binding tier of this backend.
    fn binding_tier(&self) -> Tier;

    /// Keeps `passphrase` for `key_id` behind the platform's biometric check.
    fn store(&self, key_id: &str, passphrase: &Secret) -> Result<()>;

    /// Releases the passphrase stored for `key_id`, raising the biometric
    /// prompt, or reports that the key is not enrolled without a prompt.
    fn retrieve(&self, key_id: &str) -> Result<Secret>;

    /// Removes the enrollment for `key_id`.
    fn delete(&self, key_id: &str) -> Result<()>;

    /// Lists all enrollments held by the keystore.
    fn list(&self) -> Result<Vec<EnrolledKey>>;
}

/// The operating systems that a backend exists for, and all others.
#[derive(Debug, Clone, Copy, PartialEq, Eq, Structural)]
pub enum Platform {
    Linux,
    Macos,
    Windows,
    Other,
}

/// The biometric backends.
#[derive(Debug, Clone, Copy, PartialEq, Eq, Structural)]
pub enum Backend {
    /// `fprintd` and the Secret Service keyring.
    Linux,
    /// The Keychain and Touch ID.
    Macos,
    /// The Credential Locker and Windows Hello.
    Windows,
    /// None: every operation reports unavailability.
    Unsupported,
}

/// The backend for a build with or without biometric support, on a platform.
#[must_use]
pub fn backend(biometric_enabled: bool, platform: Platform) -> (r: Backend)
    ensures
        r == Backend::Linux <==> biometric_enabled && platform == Platform::Linux,
        r == Backend::Macos <==> biometric_enabled && platform == Platform::Macos,
        r == Backend::Windows <==> biometric_enabled && platform == Platform::Windows,
        r == Backend::Unsupported <==> !biometric_enabled || platform == Platform::Other,
{
    if !biometric_enabled {
        return Backend::Unsupported;
    }
    match platform {
        Platform::Linux => Backend::Linux,
        Platform::Macos => Backend::Macos,
        Platform::Windows => Backend::Windows,
        Platform::Other => Backend::Unsupported,
    }
}

impl Backend {
    /// How strongly each backend binds the secret to the biometric.
    pub open spec fn tier(self) -> Tier {
        match self {
            Backend::Linux => Tier::Advisory,
            Backend::Macos => Tier::HardwareBound,
            Backend::Windows => Tier::DpapiConsent,
            Backend::Unsupported => Tier::Unsupported,
        }
    }

    /// How strongly each backend binds the secret to the biometric.
    #[must_use]
    pub fn binding_tier(self) -> (r: Tier)
        ensures
            r == self.tier(),
    {
        match self {
            Backend::Linux => Tier::Advisory,
            Backend::Macos => Tier::HardwareBound,
            Backend::Windows => Tier::DpapiConsent,
            Backend::Unsupported => Tier::Unsupported,
        }
    }
}

/// No two backends make the same promise, so a tier tells which backend is
/// active.
pub proof fn tiers_tell_backends_apart(a: Backend, b: Backend)
    ensures
        a.tier() == b.tier() ==> a == b,
{
}

/// The backend of builds without support.  Every operation reports
/// unavailability, so the key-load path falls through to the passphrase prompt.
#[derive(Debug)]
pub struct UnsupportedVault {
    /// Whether the build has biometric support, on a platform that has no
    /// backend for it.
    pub biometric_enabled: bool,
}

impl UnsupportedVault {
    /// The error that every operation reports: it tells a build without
    /// biometric support from a platform without a backend.
    pub open spec fn refusal(self) -> ErrorView {
        if self.biometric_enabled {
            ErrorView::Unavailable("no biometric backend is available for this platform"@)
        } else {
            ErrorView::Unavailable("this build was compiled without the `biometric` feature"@)
        }
    }

    /// The error that every operation reports.
    pub fn reason(&self) -> (r: BiometricError)
        ensures
            r@ == self.refusal(),
    {
        let why: &str = if self.biometric_enabled {
            "no biometric backend is available for this platform"
        } else {
            "this build was compiled without the `biometric` feature"
        };
        BiometricError::Unavailable(why.to_owned())
    }
}

impl BiometricVault for UnsupportedVault {
    fn is_available(&self) -> (r: bool)
        ensures
            !r,
    {
        false
    }

    fn binding_tier(&self) -> (r: Tier)
        ensures
            r == Tier::Unsupported,
    {
        Tier::Unsupported
    }

    fn store(&self, _key_id: &str, _passphrase: &Secret) -> (r: Result<()>)
        ensures
            r matches Err(error) && error@ == self.refusal(),
    {
        Err(self.reason())
    }

    fn retrieve(&self, _key_id: &str) -> (r: Result<Secret>)
        ensures
            r matches Err(error) && error@ == self.refusal(),
    {
        Err(self.reason())
    }

    fn delete(&self, _key_id: &str) -> (r: Result<()>)
        ensures
            r matches Err(error) && error@ == self.refusal(),
    {
        Err(self.reason())
    }

    fn list(&self) -> (r: Result<Vec<EnrolledKey>>)
        ensures
            r matches Err(error) && error@ == self.refusal(),
    {
        Err(self.reason())
    }
}

/// What is asked of a keystore.
#[derive(Debug, Clone, Copy, PartialEq, Eq, Structural)]
pub enum Request {
    /// Store a passphrase.
    Store,
    /// Release a passphrase behind a biometric check.
    Retrieve,
    /// Remove an enrollment.
    Delete,
    /// List all enrollments.
    List,
}

/// How a request to a keystore ended, if it did.
pub enum Outcome {
    /// Calls are still due.
    Pending,
    /// The passphrase is stored.
    Stored,
    /// The passphrase was released.
    Released(Secret),
    /// The enrollment was removed.
    Deleted,
    /// The enrollments.
    Listed(Vec<EnrolledKey>),
    /// The request failed.
    Failed(BiometricError),
}

/// An [`Outcome`] with its texts.
pub enum OutcomeView {
    Pending,
    Stored,
    Released(Seq<char>),
    Deleted,
    Listed(Seq<EnrolledKeyView>),
    Failed(ErrorView),
}

impl View for Outcome {
    type V = OutcomeView;

    open spec fn view(&self) -> OutcomeView {
        match self {
            Outcome::Pending => OutcomeView::Pending,
            Outcome::Stored => OutcomeView::Stored,
            Outcome::Released(secret) => OutcomeView::Released(secret@),
            Outcome::Deleted => OutcomeView::Deleted,
            Outcome::Listed(keys) => OutcomeView::Listed(keys_view(keys@)),
            Outcome::Failed(error) => OutcomeView::Failed(error@),
        }
    }
}

/// The outcomes that a request may have.
pub open spec fn may_have(request: Request, outcome: OutcomeView) -> bool {
    match outcome {
        OutcomeView::Stored => request == Request::Store,
        OutcomeView::Released(_) => request == Request::Retrieve,
        OutcomeView::Deleted => request == Request::Delete,
        OutcomeView::Listed(_) => request == Request::List,
        _ => true,
    }
}

/// The error of an operation whose worker could not start its runtime.
pub fn runtime_failed(why: &str) -> (r: BiometricError)
    ensures
        r@ == ErrorView::Backend("tokio runtime init: "@ + why@),
{
    BiometricError::Backend(join2("tokio runtime init: ", why))
}

/// The error of an operation whose worker thread panicked.
pub fn worker_panicked() -> (r: BiometricError)
    ensures
        r@ == ErrorView::Backend("biometric worker thread panicked"@),
{
    BiometricError::Backend("biometric worker thread panicked".to_owned())
}

/// Each platform has its own backend, of its own tier; a build without biometric
/// support, and any other platform, has none.
pub proof fn platforms_have_their_backend(
    enabled: bool,
    platform: Platform,
    chosen: Backend,
    tier: Tier,
)
    requires
        call_ensures(backend, (enabled, platform), chosen),
        call_ensures(Backend::binding_tier, (chosen,), tier),
    ensures
        enabled && platform == Platform::Linux ==> chosen == Backend::Linux && tier
            == Tier::Advisory,
        enabled && platform == Platform::Macos ==> chosen == Backend::Macos && tier
            == Tier::HardwareBound,
        enabled && platform == Platform::Windows ==> chosen == Backend::Windows && tier
            == Tier::DpapiConsent,
        !enabled || platform == Platform::Other ==> chosen == Backend::Unsupported && tier
            == Tier::Unsupported,
{
}

/// A vault without a backend fails every request in the same way, which says why
/// there is none.
pub proof fn nothing_works_without_a_backend(
    vault: &UnsupportedVault,
    key_id: &str,
    passphrase: &Secret,
    stored: Result<()>,
    released: Result<Secret>,
    deleted: Result<()>,
    listed: Result<Vec<EnrolledKey>>,
)
    requires
        call_ensures(UnsupportedVault::store, (vault, key_id, passphrase), stored),
        call_ensures(UnsupportedVault::retrieve, (vault, key_id), released),
        call_ensures(UnsupportedVault::delete, (vault, key_id), deleted),
        call_ensures(UnsupportedVault::list, (vault,), listed),
    ensures
        ({
            let refusal = ErrorView::Unavailable(
                if vault.biometric_enabled {
                    "no biometric backend is available for this platform"@
                } else {
                    "this build was compiled without the `biometric` feature"@
                },
            );
            &&& stored matches Err(error) && error@ == refusal
            &&& released matches Err(error) && error@ == refusal
            &&& deleted matches Err(error) && error@ == refusal
            &&& listed matches Err(error) && error@ == refusal
        }),
{
}

/// A request ends in its own kind of outcome or fails.
pub proof fn outcomes_belong_to_their_request(request: Request, outcome: OutcomeView)
    requires
        may_have(request, outcome),
    ensures
        outcome is Stored ==> request == Request::Store,
        outcome is Released ==> request == Request::Retrieve,
        outcome is Deleted ==> request == Request::Delete,
        outcome is Listed ==> request == Request::List,
{
}

/// A worker that cannot do its work is an error of the backend.
pub proof fn workers_fail_as_the_backend(why: &str, unstarted: BiometricError, dead: BiometricError)
    requires
        call_ensures(runtime_failed, (why,), unstarted),
        call_ensures(worker_panicked, (), dead),
    ensures
        unstarted@ == ErrorView::Backend("tokio runtime init: "@ + why@),
        dead@ == ErrorView::Backend("biometric worker thread panicked"@),
{
}

/// An outcome is seen as it is.
pub proof fn outcomes_are_seen_as_they_are(outcome: Outcome)
    ensures
        match outcome {
            Outcome::Pending => outcome@ is Pending,
            Outcome::Stored => outcome@ is Stored,
            Outcome::Released(secret) => outcome@ == OutcomeView::Released(secret@),
            Outcome::Deleted => outcome@ is Deleted,
            Outcome::Listed(keys) => outcome@ matches OutcomeView::Listed(list) && list.len()
                == keys@.len() && forall|i: int|
                0 <= i < list.len() ==> #[trigger] list[i] == keys@[i]@,
            Outcome::Failed(error) => outcome@ == OutcomeView::Failed(error@),
        },
{
}

} // verus!
