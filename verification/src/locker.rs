//! The Windows keystore: how a passphrase is stored in, released from, removed
//! from and listed in the Credential Locker.
//!
//! The locker is not gated by a biometric itself, so a Windows Hello consent
//! prompt precedes each read.  A [`Session`] says which call is due; the caller
//! performs it and hands the reply back, until the session is finished.

use vstd::prelude::*;

use crate::biometric::{
    enrollment_to_forget, fingerprint_in, fingerprint_of, fingerprint_of_key_id, key_id_of,
    keys_view, unlock_outcome, AutoUnlockView, BiometricError, EnrolledKey, EnrolledKeyView,
    ErrorView,
};
use crate::keys::optional_text;
use crate::secret::Secret;
use crate::text::join2;
use crate::vault::{may_have, Outcome, OutcomeView, Request};

verus! {

/// Locker resource that all our entries share.  The user-name field holds the
/// `SHA256:...` fingerprint of the key.
pub const RESOURCE: &'static str = "org.SpacecraftSoftware.gitway.ssh-passphrase";

/// The message of the consent prompt.
pub const CONSENT_MESSAGE: &'static str = "Unlock your SSH key";

/// The status of a missing credential (0x80070490).
pub const ERROR_NOT_FOUND: i32 = -2147023728;

/// The credential user-name for a key is its bare fingerprint.
pub fn account_of(key_id: &str) -> (r: &str)
    ensures
        r@ == fingerprint_in(key_id@),
{
    fingerprint_of(key_id)
}

/// Whether Windows Hello is usable, from the answer to the availability query,
/// which is absent where the query failed.
pub fn hello_available(answer: Option<bool>) -> (r: bool)
    ensures
        r == (answer == Some(true)),
{
    match answer {
        Some(available) => available,
        None => false,
    }
}

/// The calls of a session.
#[derive(Debug, Clone, Copy, PartialEq, Eq, Structural)]
pub enum Step {
    /// Open the locker.
    Open,
    /// Look for an earlier credential of the key, which adding does not replace.
    FindOld,
    /// Remove that credential.
    RemoveOld,
    /// Create the credential of the key.
    Create,
    /// Add it to the locker.
    Insert,
    /// Find the credential of the key.
    Find,
    /// Raise the Windows Hello consent prompt.
    AskConsent,
    /// Wait for the answer to the prompt.
    AwaitConsent,
    /// Read the password of the credential.
    ReadPassword,
    /// Remove the credential of the key.
    Remove,
    /// Find the user names of all credentials, without reading a password.
    FindAll,
    /// Nothing is left to do.
    Finished,
}

/// The reply to a call.
pub enum Reply {
    /// The call succeeded.
    Done,
    /// The call failed, with a status and a message.
    Failed { code: i32, why: String },
    /// Whether the user consented.
    Consent(bool),
    /// The password of a credential, where it is valid text.
    Password(Option<String>),
    /// The user name of each credential, where it has one.
    Names(Vec<Option<String>>),
}

/// A [`Reply`] with its texts.
pub enum ReplyView {
    Done,
    Failed { code: i32, why: Seq<char> },
    Consent(bool),
    Password(Option<Seq<char>>),
    Names(Seq<Option<Seq<char>>>),
}

/// The characters of a list of optional names.
pub open spec fn names_view(names: Seq<Option<String>>) -> Seq<Option<Seq<char>>> {
    names.map_values(|name: Option<String>| optional_text(name))
}

impl View for Reply {
    type V = ReplyView;

    open spec fn view(&self) -> ReplyView {
        match self {
            Reply::Done => ReplyView::Done,
            Reply::Failed { code, why } => ReplyView::Failed { code: *code, why: why@ },
            Reply::Consent(given) => ReplyView::Consent(*given),
            Reply::Password(text) => ReplyView::Password(optional_text(*text)),
            Reply::Names(names) => ReplyView::Names(names_view(names@)),
        }
    }
}

/// The listing of a credential, from its user name.
pub open spec fn entry_of(name: Option<Seq<char>>) -> EnrolledKeyView {
    EnrolledKeyView {
        fingerprint: match name {
            Some(name) => name,
            None => Seq::empty(),
        },
        comment: None,
    }
}

/// The listings of all credentials, in their order.
pub open spec fn entries_of(names: Seq<Option<Seq<char>>>) -> Seq<EnrolledKeyView> {
    names.map_values(|name: Option<Seq<char>>| entry_of(name))
}

/// The listings of all credentials, in their order.
pub fn entries(names: &Vec<Option<String>>) -> (r: Vec<EnrolledKey>)
    ensures
        keys_view(r@) == entries_of(names_view(names@)),
{
    let ghost all = names_view(names@);
    let mut enrolled: Vec<EnrolledKey> = Vec::new();
    let mut i: usize = 0;
    while i < names.len()
        invariant
            i <= names@.len(),
            all == names_view(names@),
            enrolled@.len() == i,
            forall|j: int| 0 <= j < i ==> (#[trigger] enrolled@[j])@ == entry_of(all[j]),
        decreases names@.len() - i,
    {
        let fingerprint: String = match &names[i] {
            Some(name) => name.clone(),
            None => String::new(),
        };
        enrolled.push(EnrolledKey { fingerprint, comment: None });
        assert(enrolled@[i as int]@.fingerprint =~= entry_of(all[i as int]).fingerprint);
        i += 1;
    }
    assert(keys_view(enrolled@) =~= entries_of(all));
    enrolled
}

/// A request to the locker under way.
pub struct Session {
    request: Request,
    step: Step,
    outcome: Outcome,
}

/// A [`Session`] with its texts.
pub struct SessionView {
    pub request: Request,
    pub step: Step,
    pub outcome: OutcomeView,
}

impl View for Session {
    type V = SessionView;

    closed spec fn view(&self) -> SessionView {
        SessionView { request: self.request, step: self.step, outcome: self.outcome@ }
    }
}

/// A session at its beginning.
pub open spec fn opened(request: Request) -> SessionView {
    SessionView { request, step: Step::Open, outcome: OutcomeView::Pending }
}

/// A session that ended.
pub open spec fn ended(session: SessionView, outcome: OutcomeView) -> SessionView {
    SessionView { step: Step::Finished, outcome, ..session }
}

/// A session that moved on.
pub open spec fn moved(session: SessionView, step: Step) -> SessionView {
    SessionView { step, ..session }
}

/// The call that follows the opening of the locker.
pub open spec fn second_step(request: Request) -> Step {
    match request {
        Request::Store => Step::FindOld,
        Request::Retrieve => Step::Find,
        Request::Delete => Step::Find,
        Request::List => Step::FindAll,
    }
}

/// The error of a failed call.
pub open spec fn failure(step: Step, code: i32, why: Seq<char>) -> ErrorView {
    match step {
        Step::Open => ErrorView::Backend("credential locker: "@ + why),
        Step::Create => ErrorView::Backend("create credential: "@ + why),
        Step::Insert => ErrorView::Backend("locker write: "@ + why),
        Step::Find => if code == ERROR_NOT_FOUND {
            ErrorView::NotEnrolled
        } else {
            ErrorView::Backend("locker read: "@ + why)
        },
        Step::AskConsent => ErrorView::Backend("hello request: "@ + why),
        Step::AwaitConsent => ErrorView::Backend("hello result: "@ + why),
        Step::ReadPassword => ErrorView::Backend("locker password: "@ + why),
        Step::Remove => ErrorView::Backend("locker delete: "@ + why),
        _ => ErrorView::Backend("locker list: "@ + why),
    }
}

/// A session after a call that succeeded.
pub open spec fn after_success(session: SessionView) -> SessionView {
    match session.step {
        Step::Open => moved(session, second_step(session.request)),
        Step::FindOld => moved(session, Step::RemoveOld),
        Step::RemoveOld => moved(session, Step::Create),
        Step::Create => moved(session, Step::Insert),
        Step::Insert => ended(session, OutcomeView::Stored),
        Step::Find => if session.request == Request::Retrieve {
            moved(session, Step::AskConsent)
        } else {
            moved(session, Step::Remove)
        },
        Step::AskConsent => moved(session, Step::AwaitConsent),
        Step::Remove => ended(session, OutcomeView::Deleted),
        _ => session,
    }
}

/// A session after a call that failed.
pub open spec fn after_failure(session: SessionView, code: i32, why: Seq<char>) -> SessionView {
    match session.step {
        Step::FindOld => moved(session, Step::Create),
        Step::RemoveOld => moved(session, Step::Create),
        Step::FindAll => if code == ERROR_NOT_FOUND {
            ended(session, OutcomeView::Listed(Seq::empty()))
        } else {
            ended(session, OutcomeView::Failed(failure(session.step, code, why)))
        },
        Step::Finished => session,
        _ => ended(session, OutcomeView::Failed(failure(session.step, code, why))),
    }
}

/// A session after the password was read.
pub open spec fn after_password(session: SessionView, text: Option<Seq<char>>) -> SessionView {
    match text {
        None => ended(
            session,
            OutcomeView::Failed(ErrorView::Backend("stored passphrase is not valid UTF-8"@)),
        ),
        Some(text) => if text.len() == 0 {
            ended(
                session,
                OutcomeView::Failed(ErrorView::Backend("stored passphrase was empty"@)),
            )
        } else {
            ended(session, OutcomeView::Released(text))
        },
    }
}

/// A session after a reply.  A reply that does not answer the call that is due
/// changes nothing.
pub open spec fn after(session: SessionView, reply: ReplyView) -> SessionView {
    match reply {
        ReplyView::Done => after_success(session),
        ReplyView::Failed { code, why } => after_failure(session, code, why),
        ReplyView::Consent(given) => if session.step != Step::AwaitConsent {
            session
        } else if given {
            moved(session, Step::ReadPassword)
        } else {
            ended(session, OutcomeView::Failed(ErrorView::Cancelled))
        },
        ReplyView::Password(text) => if session.step != Step::ReadPassword {
            session
        } else {
            after_password(session, text)
        },
        ReplyView::Names(names) => if session.step != Step::FindAll {
            session
        } else {
            ended(session, OutcomeView::Listed(entries_of(names)))
        },
    }
}

/// The error of a failed call.
fn error_of(step: Step, code: i32, why: String) -> (r: BiometricError)
    ensures
        r@ == failure(step, code, why@),
{
    let why: &str = why.as_str();
    match step {
        Step::Open => BiometricError::Backend(join2("credential locker: ", why)),
        Step::Create => BiometricError::Backend(join2("create credential: ", why)),
        Step::Insert => BiometricError::Backend(join2("locker write: ", why)),
        Step::Find => if code == ERROR_NOT_FOUND {
            BiometricError::NotEnrolled
        } else {
            BiometricError::Backend(join2("locker read: ", why))
        },
        Step::AskConsent => BiometricError::Backend(join2("hello request: ", why)),
        Step::AwaitConsent => BiometricError::Backend(join2("hello result: ", why)),
        Step::ReadPassword => BiometricError::Backend(join2("locker password: ", why)),
        Step::Remove => BiometricError::Backend(join2("locker delete: ", why)),
        _ => BiometricError::Backend(join2("locker list: ", why)),
    }
}

impl Session {
    /// Begins a request.
    pub fn start(request: Request) -> (r: Session)
        ensures
            r@ == opened(request),
    {
        Session { request, step: Step::Open, outcome: Outcome::Pending }
    }

    /// The call that is due.
    pub fn step(&self) -> (r: Step)
        ensures
            r == self@.step,
    {
        self.step
    }

    /// Ends the session.
    fn end(self, outcome: Outcome) -> (r: Session)
        ensures
            r@ == ended(self@, outcome@),
    {
        Session { step: Step::Finished, outcome, ..self }
    }

    /// Moves the session on.
    fn go(self, step: Step) -> (r: Session)
        ensures
            r@ == moved(self@, step),
    {
        Session { step, ..self }
    }

    /// Takes a success.
    fn take_success(self) -> (r: Session)
        ensures
            r@ == after_success(self@),
    {
        match self.step {
            Step::Open => match self.request {
                Request::Store => self.go(Step::FindOld),
                Request::Retrieve => self.go(Step::Find),
                Request::Delete => self.go(Step::Find),
                Request::List => self.go(Step::FindAll),
            },
            Step::FindOld => self.go(Step::RemoveOld),
            Step::RemoveOld => self.go(Step::Create),
            Step::Create => self.go(Step::Insert),
            Step::Insert => self.end(Outcome::Stored),
            Step::Find => if self.request == Request::Retrieve {
                self.go(Step::AskConsent)
            } else {
                self.go(Step::Remove)
            },
            Step::AskConsent => self.go(Step::AwaitConsent),
            Step::Remove => self.end(Outcome::Deleted),
            _ => self,
        }
    }

    /// Takes a failure.
    fn take_failure(self, code: i32, why: String) -> (r: Session)
        ensures
            r@ == after_failure(self@, code, why@),
    {
        let step: Step = self.step;
        match step {
            Step::FindOld => self.go(Step::Create),
            Step::RemoveOld => self.go(Step::Create),
            Step::FindAll => if code == ERROR_NOT_FOUND {
                let keys: Vec<EnrolledKey> = Vec::new();
                assert(keys_view(keys@) =~= Seq::empty());
                self.end(Outcome::Listed(keys))
            } else {
                self.end(Outcome::Failed(error_of(step, code, why)))
            },
            Step::Finished => self,
            _ => self.end(Outcome::Failed(error_of(step, code, why))),
        }
    }

    /// Takes the password of the credential.
    fn take_password(self, text: Option<String>) -> (r: Session)
        ensures
            r@ == after_password(self@, optional_text(text)),
    {
        match text {
            None => self.end(
                Outcome::Failed(
                    BiometricError::Backend("stored passphrase is not valid UTF-8".to_owned()),
                ),
            ),
            Some(text) => if text.as_str().is_empty() {
                self.end(
                    Outcome::Failed(
                        BiometricError::Backend("stored passphrase was empty".to_owned()),
                    ),
                )
            } else {
                self.end(Outcome::Released(Secret::new(text)))
            },
        }
    }

    /// Takes the reply to the call that was due.  A reply that does not answer
    /// it is ignored.
    pub fn reply(self, reply: Reply) -> (r: Session)
        ensures
            r@ == after(self@, reply@),
    {
        match reply {
            Reply::Done => self.take_success(),
            Reply::Failed { code, why } => self.take_failure(code, why),
            Reply::Consent(given) => if self.step != Step::AwaitConsent {
                self
            } else if given {
                self.go(Step::ReadPassword)
            } else {
                self.end(Outcome::Failed(BiometricError::Cancelled))
            },
            Reply::Password(text) => if self.step != Step::ReadPassword {
                self
            } else {
                self.take_password(text)
            },
            Reply::Names(names) => if self.step != Step::FindAll {
                self
            } else {
                self.end(Outcome::Listed(entries(&names)))
            },
        }
    }

    /// How the session ended.
    pub fn outcome(self) -> (r: Outcome)
        ensures
            r@ == self@.outcome,
    {
        self.outcome
    }
}

/// A session after a sequence of replies.
pub open spec fn run(session: SessionView, replies: Seq<ReplyView>) -> SessionView
    decreases replies.len(),
{
    if replies.len() == 0 {
        session
    } else {
        run(after(session, replies[0]), replies.drop_first())
    }
}

/// The steps that a request may take.
pub open spec fn may_take(request: Request, step: Step) -> bool {
    match step {
        Step::Open => true,
        Step::FindOld => request == Request::Store,
        Step::RemoveOld => request == Request::Store,
        Step::Create => request == Request::Store,
        Step::Insert => request == Request::Store,
        Step::Find => request == Request::Retrieve || request == Request::Delete,
        Step::AskConsent => request == Request::Retrieve,
        Step::AwaitConsent => request == Request::Retrieve,
        Step::ReadPassword => request == Request::Retrieve,
        Step::Remove => request == Request::Delete,
        Step::FindAll => request == Request::List,
        Step::Finished => true,
    }
}

/// What holds of a session at any time.
pub open spec fn proper(session: SessionView) -> bool {
    &&& may_take(session.request, session.step)
    &&& may_have(session.request, session.outcome)
    &&& session.step == Step::Finished <==> !(session.outcome is Pending)
}

/// Whatever the replies, a request keeps to its own steps and ends in its own
/// kind of outcome: only a release asks for consent and reads a password, and a
/// listing never does.
pub proof fn requests_keep_to_their_steps(request: Request, replies: Seq<ReplyView>)
    ensures
        proper(run(opened(request), replies)),
        run(opened(request), replies).request == request,
{
    lemma_stays_proper(opened(request), replies);
}

proof fn lemma_stays_proper(session: SessionView, replies: Seq<ReplyView>)
    requires
        proper(session),
    ensures
        proper(run(session, replies)),
        run(session, replies).request == session.request,
    decreases replies.len(),
{
    if replies.len() > 0 {
        lemma_stays_proper(after(session, replies[0]), replies.drop_first());
    }
}

/// The consent prompt is raised only for a key that is enrolled: nothing but a
/// credential that was found leads to it.
pub proof fn no_prompt_without_enrollment(session: SessionView, reply: ReplyView)
    ensures
        session.step != Step::AskConsent && after(session, reply).step == Step::AskConsent
            ==> session.step == Step::Find && reply is Done,
        forall|why: Seq<char>|
            session.step == Step::Find ==> #[trigger] after(
                session,
                ReplyView::Failed { code: ERROR_NOT_FOUND, why },
            ).outcome == OutcomeView::Failed(ErrorView::NotEnrolled),
{
}

/// A password is read, and released, only after the user consented.
pub proof fn no_release_without_consent(session: SessionView, reply: ReplyView)
    ensures
        session.step != Step::ReadPassword && after(session, reply).step == Step::ReadPassword
            ==> session.step == Step::AwaitConsent && reply == ReplyView::Consent(true),
        !(session.outcome is Released) && after(session, reply).outcome is Released ==> session.step
            == Step::ReadPassword,
{
}

/// Storing removes an earlier credential that was found before the new one is
/// created.
pub proof fn storing_removes_first(session: SessionView)
    requires
        session.step == Step::FindOld,
    ensures
        after(session, ReplyView::Done).step == Step::RemoveOld,
        after(after(session, ReplyView::Done), ReplyView::Done).step == Step::Create,
{
}

/// What is stored is what is released: the password of a credential that holds a
/// passphrase is released as that passphrase, unless it is empty.
pub proof fn what_was_stored_is_released(session: SessionView, passphrase: Seq<char>)
    requires
        session.step == Step::ReadPassword,
        passphrase.len() > 0,
    ensures
        after(session, ReplyView::Password(Some(passphrase))).outcome == OutcomeView::Released(
            passphrase,
        ),
{
}

proof fn lemma_release_needs_consent(session: SessionView, replies: Seq<ReplyView>)
    requires
        session.step != Step::ReadPassword,
        !(session.outcome is Released),
        run(session, replies).outcome is Released,
    ensures
        exists|i: int| 0 <= i < replies.len() && #[trigger] replies[i] == ReplyView::Consent(true),
    decreases replies.len(),
{
    if replies.len() > 0 {
        let next = after(session, replies[0]);
        let rest = replies.drop_first();
        if next.step == Step::ReadPassword {
            assert(replies[0] == ReplyView::Consent(true));
        } else {
            lemma_release_needs_consent(next, rest);
            let i = choose|i: int|
                0 <= i < rest.len() && #[trigger] rest[i] == ReplyView::Consent(true);
            assert(replies[i + 1] == ReplyView::Consent(true));
        }
    }
}

/// In a whole session, from its beginning on: a passphrase is released only if
/// the user consented.
pub proof fn a_release_had_consent(request: Request, replies: Seq<ReplyView>)
    requires
        run(opened(request), replies).outcome is Released,
    ensures
        exists|i: int| 0 <= i < replies.len() && #[trigger] replies[i] == ReplyView::Consent(true),
{
    lemma_release_needs_consent(opened(request), replies);
}

/// A stale enrollment is reported once.  Its credential was removed, and nothing
/// was stored for the key since: the next release finds no credential and ends
/// as "not enrolled" before the consent prompt, so that load falls back to the
/// passphrase prompt and deletes nothing.
pub proof fn a_stale_enrollment_is_reported_once(pem: Seq<char>, why: Seq<char>)
    ensures
        ({
            let finding = after(opened(Request::Retrieve), ReplyView::Done);
            let missing = ReplyView::Failed { code: ERROR_NOT_FOUND, why };
            &&& finding.step == Step::Find
            &&& after(finding, missing) == ended(
                finding,
                OutcomeView::Failed(ErrorView::NotEnrolled),
            )
        }),
        unlock_outcome(pem, Err(ErrorView::NotEnrolled)) == AutoUnlockView::Fallback,
        enrollment_to_forget(pem, unlock_outcome(pem, Err(ErrorView::NotEnrolled))) is None,
{
}

/// A credential of the locker that belongs to us.
pub struct CredentialView {
    pub account: Seq<char>,
    pub password: Seq<char>,
}

/// The credentials of an account, or those of all others, in their order.
pub open spec fn selected(
    credentials: Seq<CredentialView>,
    account: Seq<char>,
    matching: bool,
) -> Seq<CredentialView>
    decreases credentials.len(),
{
    if credentials.len() == 0 {
        Seq::empty()
    } else {
        let earlier = selected(credentials.drop_last(), account, matching);
        if (credentials.last().account == account) == matching {
            earlier.push(credentials.last())
        } else {
            earlier
        }
    }
}

/// What is found for a key.
pub open spec fn found(credentials: Seq<CredentialView>, key_id: Seq<char>) -> Seq<CredentialView> {
    selected(credentials, fingerprint_in(key_id), true)
}

/// What is left after the removal of what belongs to a key.
pub open spec fn removed(credentials: Seq<CredentialView>, key_id: Seq<char>) -> Seq<CredentialView> {
    selected(credentials, fingerprint_in(key_id), false)
}

/// What holds the passphrase of a key.
pub open spec fn credential_for(key_id: Seq<char>, passphrase: Seq<char>) -> CredentialView {
    CredentialView { account: fingerprint_in(key_id), password: passphrase }
}

/// The credentials after a call that succeeded, or that found nothing to remove.
pub open spec fn effect(
    credentials: Seq<CredentialView>,
    step: Step,
    key_id: Seq<char>,
    passphrase: Seq<char>,
) -> Seq<CredentialView> {
    match step {
        Step::RemoveOld => removed(credentials, key_id),
        Step::Remove => removed(credentials, key_id),
        Step::Insert => credentials.push(credential_for(key_id, passphrase)),
        _ => credentials,
    }
}

/// The credentials after the calls of a session that got these replies.
pub open spec fn effects(
    credentials: Seq<CredentialView>,
    session: SessionView,
    replies: Seq<ReplyView>,
    key_id: Seq<char>,
    passphrase: Seq<char>,
) -> Seq<CredentialView>
    decreases replies.len(),
{
    if replies.len() == 0 {
        credentials
    } else {
        effects(
            effect(credentials, session.step, key_id, passphrase),
            after(session, replies[0]),
            replies.drop_first(),
            key_id,
            passphrase,
        )
    }
}

proof fn lemma_nothing_matches_after_removal(credentials: Seq<CredentialView>, key_id: Seq<char>)
    ensures
        found(removed(credentials, key_id), key_id) == Seq::<CredentialView>::empty(),
    decreases credentials.len(),
{
    if credentials.len() > 0 {
        let earlier = credentials.drop_last();
        lemma_nothing_matches_after_removal(earlier, key_id);
        let kept = removed(earlier, key_id);
        assert(kept.push(credentials.last()).drop_last() =~= kept);
    }
}

/// The replies of a locker to a session that stores a passphrase.  An earlier
/// credential of the key is found, and removed, where there is one.
pub open spec fn store_replies(
    credentials: Seq<CredentialView>,
    key_id: Seq<char>,
    why: Seq<char>,
) -> Seq<ReplyView> {
    if found(credentials, key_id).len() > 0 {
        seq![ReplyView::Done, ReplyView::Done, ReplyView::Done, ReplyView::Done, ReplyView::Done]
    } else {
        seq![
            ReplyView::Done,
            ReplyView::Failed { code: ERROR_NOT_FOUND, why },
            ReplyView::Done,
            ReplyView::Done,
        ]
    }
}

/// The locker after a session that stored a passphrase.
pub open spec fn stored(
    credentials: Seq<CredentialView>,
    key_id: Seq<char>,
    passphrase: Seq<char>,
    why: Seq<char>,
) -> Seq<CredentialView> {
    effects(
        credentials,
        opened(Request::Store),
        store_replies(credentials, key_id, why),
        key_id,
        passphrase,
    )
}

proof fn lemma_creating(
    credentials: Seq<CredentialView>,
    session: SessionView,
    replies: Seq<ReplyView>,
    key_id: Seq<char>,
    passphrase: Seq<char>,
)
    requires
        session.step == Step::Create,
        replies == seq![ReplyView::Done, ReplyView::Done],
    ensures
        run(session, replies) == ended(session, OutcomeView::Stored),
        effects(credentials, session, replies, key_id, passphrase) == credentials.push(
            credential_for(key_id, passphrase),
        ),
{
    let rest = replies.drop_first();
    let inserting = after(session, replies[0]);
    let last = after(inserting, rest[0]);
    let done = credentials.push(credential_for(key_id, passphrase));
    assert(rest.drop_first().len() == 0);
    assert(run(last, rest.drop_first()) == last);
    assert(run(inserting, rest) == last);
    assert(effects(done, last, rest.drop_first(), key_id, passphrase) == done);
    assert(effects(credentials, inserting, rest, key_id, passphrase) == done);
}

/// Storing overwrites: whatever the locker held before, the session ends as
/// stored, and one credential is found for the key, which holds the passphrase
/// that was stored last.
pub proof fn storing_overwrites(
    credentials: Seq<CredentialView>,
    key_id: Seq<char>,
    passphrase: Seq<char>,
    why: Seq<char>,
)
    ensures
        run(
            opened(Request::Store),
            store_replies(credentials, key_id, why),
        ).outcome == OutcomeView::Stored,
        found(stored(credentials, key_id, passphrase, why), key_id) == seq![
            credential_for(key_id, passphrase),
        ],
{
    let start = opened(Request::Store);
    let finding = moved(start, Step::FindOld);
    let creating = moved(start, Step::Create);
    let replies = store_replies(credentials, key_id, why);
    let one = replies.drop_first();
    let two = one.drop_first();
    let credential = credential_for(key_id, passphrase);
    let kept = if found(credentials, key_id).len() > 0 {
        removed(credentials, key_id)
    } else {
        credentials
    };
    if found(credentials, key_id).len() > 0 {
        let removing = moved(start, Step::RemoveOld);
        let three = two.drop_first();
        assert(three =~= seq![ReplyView::Done, ReplyView::Done]);
        lemma_creating(kept, creating, three, key_id, passphrase);
        lemma_nothing_matches_after_removal(credentials, key_id);
        assert(run(removing, two) == run(creating, three));
        assert(effects(credentials, removing, two, key_id, passphrase) == kept.push(credential));
        assert(run(finding, one) == run(removing, two));
        assert(effects(credentials, finding, one, key_id, passphrase) == kept.push(credential));
    } else {
        assert(two =~= seq![ReplyView::Done, ReplyView::Done]);
        lemma_creating(kept, creating, two, key_id, passphrase);
        assert(one[0] == ReplyView::Failed { code: ERROR_NOT_FOUND, why });
        assert(run(finding, one) == run(creating, two));
        assert(effects(credentials, finding, one, key_id, passphrase) == kept.push(credential));
    }
    assert(run(start, replies) == run(finding, one));
    assert(stored(credentials, key_id, passphrase, why) == kept.push(credential));
    assert(found(kept, key_id) =~= Seq::empty());
    assert(kept.push(credential).drop_last() =~= kept);
    assert(Seq::<CredentialView>::empty().push(credential) =~= seq![credential]);
}

/// Two passphrases are stored for a key, one after the other: a release to which
/// the user consents then gives back the second one, unchanged, unless it is
/// empty.
pub proof fn a_second_store_replaces_the_first(
    credentials: Seq<CredentialView>,
    key_id: Seq<char>,
    first: Seq<char>,
    second: Seq<char>,
    why: Seq<char>,
)
    requires
        second.len() > 0,
    ensures
        ({
            let twice = stored(stored(credentials, key_id, first, why), key_id, second, why);
            &&& found(twice, key_id) == seq![credential_for(key_id, second)]
            &&& run(
                opened(Request::Retrieve),
                seq![
                    ReplyView::Done,
                    ReplyView::Done,
                    ReplyView::Done,
                    ReplyView::Consent(true),
                    ReplyView::Password(Some(found(twice, key_id)[0].password)),
                ],
            ).outcome == OutcomeView::Released(second)
        }),
{
    let once = stored(credentials, key_id, first, why);
    storing_overwrites(once, key_id, second, why);
    let replies = seq![
        ReplyView::Done,
        ReplyView::Done,
        ReplyView::Done,
        ReplyView::Consent(true),
        ReplyView::Password(Some(second)),
    ];
    let start = opened(Request::Retrieve);
    let one = replies.drop_first();
    let two = one.drop_first();
    let three = two.drop_first();
    let four = three.drop_first();
    let reading = moved(start, Step::ReadPassword);
    what_was_stored_is_released(reading, second);
    let last = after(reading, four[0]);
    assert(three[0] == ReplyView::Consent(true));
    assert(four[0] == ReplyView::Password(Some(second)));
    assert(four.drop_first().len() == 0);
    assert(run(last, four.drop_first()) == last);
    assert(run(reading, four) == last);
    assert(run(moved(start, Step::AwaitConsent), three) == last);
    assert(run(moved(start, Step::AskConsent), two) == last);
    assert(run(moved(start, Step::Find), one) == last);
}

/// A reply that does not answer the call that is due changes nothing: every call
/// may fail, the prompt has an answer, the password and the names have their own
/// replies, and the others only succeed.
pub proof fn only_answers_change_a_session(session: SessionView, reply: ReplyView)
    requires
        match reply {
            ReplyView::Done => session.step == Step::AwaitConsent || session.step
                == Step::ReadPassword || session.step == Step::FindAll || session.step
                == Step::Finished,
            ReplyView::Failed { .. } => session.step == Step::Finished,
            ReplyView::Consent(_) => session.step != Step::AwaitConsent,
            ReplyView::Password(_) => session.step != Step::ReadPassword,
            ReplyView::Names(_) => session.step != Step::FindAll,
        },
    ensures
        after(session, reply) == session,
{
}

/// What makes each call due.
pub proof fn every_step_has_its_cause(session: SessionView, reply: ReplyView)
    requires
        proper(session),
    ensures
        ({
            let next = after(session, reply);
            let opened = session.step == Step::Open && reply is Done;
            &&& next.request == session.request
            &&& session.step != Step::Open ==> next.step != Step::Open
            &&& session.step != Step::FindOld ==> (next.step == Step::FindOld <==> opened
                && session.request == Request::Store)
            &&& session.step != Step::RemoveOld ==> (next.step == Step::RemoveOld <==> session.step
                == Step::FindOld && reply is Done)
            &&& session.step != Step::Create ==> (next.step == Step::Create <==> (session.step
                == Step::FindOld && reply is Failed) || (session.step == Step::RemoveOld && (
            reply is Done || reply is Failed)))
            &&& session.step != Step::Insert ==> (next.step == Step::Insert <==> session.step
                == Step::Create && reply is Done)
            &&& session.step != Step::Find ==> (next.step == Step::Find <==> opened && (
            session.request == Request::Retrieve || session.request == Request::Delete))
            &&& session.step != Step::AskConsent ==> (next.step == Step::AskConsent
                <==> session.step == Step::Find && reply is Done && session.request
                == Request::Retrieve)
            &&& session.step != Step::AwaitConsent ==> (next.step == Step::AwaitConsent
                <==> session.step == Step::AskConsent && reply is Done)
            &&& session.step != Step::ReadPassword ==> (next.step == Step::ReadPassword
                <==> session.step == Step::AwaitConsent && (reply matches ReplyView::Consent(given)
                && given))
            &&& session.step != Step::Remove ==> (next.step == Step::Remove <==> session.step
                == Step::Find && reply is Done && session.request == Request::Delete)
            &&& session.step != Step::FindAll ==> (next.step == Step::FindAll <==> opened
                && session.request == Request::List)
            &&& next.step != Step::Finished ==> next.outcome is Pending
        }),
        forall|request: Request|
            (#[trigger] opened(request)).request == request && opened(request).step == Step::Open
                && opened(request).outcome is Pending,
{
}

/// What ends a session, and how.
pub proof fn every_outcome_has_its_cause(session: SessionView, reply: ReplyView)
    requires
        proper(session),
        session.outcome is Pending,
    ensures
        ({
            let outcome = after(session, reply).outcome;
            let missing = reply matches ReplyView::Failed { code, .. } && code == ERROR_NOT_FOUND;
            &&& outcome is Stored <==> session.step == Step::Insert && reply is Done
            &&& outcome is Deleted <==> session.step == Step::Remove && reply is Done
            &&& outcome is Released <==> session.step == Step::ReadPassword && (
            reply matches ReplyView::Password(Some(text)) && text.len() > 0)
            &&& outcome is Listed <==> session.step == Step::FindAll && (reply is Names || missing)
            &&& outcome is Failed <==> {
                ||| session.step == Step::AwaitConsent && (reply matches ReplyView::Consent(given)
                    && !given)
                ||| session.step == Step::ReadPassword && (reply matches ReplyView::Password(text)
                    && (text matches Some(text) ==> text.len() == 0))
                ||| session.step == Step::FindAll && reply is Failed && !missing
                ||| reply is Failed && session.step != Step::FindOld && session.step
                    != Step::RemoveOld && session.step != Step::FindAll
            }
        }),
{
}

/// What a session that ends gives back: the passphrase that was read, the keys
/// that were found, or the error of the call that failed.
pub proof fn outcomes_carry_what_was_read(session: SessionView, reply: ReplyView)
    requires
        proper(session),
        session.outcome is Pending,
    ensures
        ({
            let outcome = after(session, reply).outcome;
            match (session.step, reply) {
                (Step::ReadPassword, ReplyView::Password(Some(text))) => outcome == if text.len()
                    > 0 {
                    OutcomeView::Released(text)
                } else {
                    OutcomeView::Failed(ErrorView::Backend("stored passphrase was empty"@))
                },
                (Step::ReadPassword, ReplyView::Password(None)) => outcome == OutcomeView::Failed(
                    ErrorView::Backend("stored passphrase is not valid UTF-8"@),
                ),
                (Step::AwaitConsent, ReplyView::Consent(given)) => !given ==> outcome
                    == OutcomeView::Failed(ErrorView::Cancelled),
                (Step::FindAll, ReplyView::Names(names)) => outcome == OutcomeView::Listed(
                    entries_of(names),
                ),
                (Step::FindAll, ReplyView::Failed { code, why }) => if code == ERROR_NOT_FOUND {
                    outcome matches OutcomeView::Listed(keys) && keys.len() == 0
                } else {
                    outcome == OutcomeView::Failed(ErrorView::Backend("locker list: "@ + why))
                },
                (Step::Find, ReplyView::Failed { code, why }) => outcome == OutcomeView::Failed(
                    if code == ERROR_NOT_FOUND {
                        ErrorView::NotEnrolled
                    } else {
                        ErrorView::Backend("locker read: "@ + why)
                    },
                ),
                (Step::Open, ReplyView::Failed { code: _, why }) => outcome == OutcomeView::Failed(
                    ErrorView::Backend("credential locker: "@ + why),
                ),
                (Step::Create, ReplyView::Failed { code: _, why }) => outcome
                    == OutcomeView::Failed(ErrorView::Backend("create credential: "@ + why)),
                (Step::Insert, ReplyView::Failed { code: _, why }) => outcome
                    == OutcomeView::Failed(ErrorView::Backend("locker write: "@ + why)),
                (Step::AskConsent, ReplyView::Failed { code: _, why }) => outcome
                    == OutcomeView::Failed(ErrorView::Backend("hello request: "@ + why)),
                (Step::AwaitConsent, ReplyView::Failed { code: _, why }) => outcome
                    == OutcomeView::Failed(ErrorView::Backend("hello result: "@ + why)),
                (Step::ReadPassword, ReplyView::Failed { code: _, why }) => outcome
                    == OutcomeView::Failed(ErrorView::Backend("locker password: "@ + why)),
                (Step::Remove, ReplyView::Failed { code: _, why }) => outcome
                    == OutcomeView::Failed(ErrorView::Backend("locker delete: "@ + why)),
                (_, _) => true,
            }
        }),
        ERROR_NOT_FOUND as int == 0x8007_0490int - 0x1_0000_0000int,
{
}

/// Whether an earlier credential could be removed makes no difference to anything
/// that follows.
pub proof fn clearing_makes_no_difference(
    session: SessionView,
    code: i32,
    why: Seq<char>,
    replies: Seq<ReplyView>,
)
    requires
        session.step == Step::RemoveOld,
    ensures
        run(session, seq![ReplyView::Done] + replies) == run(
            session,
            seq![ReplyView::Failed { code, why }] + replies,
        ),
{
    let removed = seq![ReplyView::Done] + replies;
    let kept = seq![ReplyView::Failed { code, why }] + replies;
    assert(removed.drop_first() =~= replies);
    assert(kept.drop_first() =~= replies);
    assert(removed[0] == ReplyView::Done);
    assert(kept[0] == (ReplyView::Failed { code, why }));
}

/// A session that is over takes no further reply, however many come.
pub proof fn a_finished_session_stays_as_it_is(session: SessionView, replies: Seq<ReplyView>)
    requires
        session.step == Step::Finished,
    ensures
        run(session, replies) == session,
    decreases replies.len(),
{
    if replies.len() > 0 {
        a_finished_session_stays_as_it_is(session, replies.drop_first());
    }
}

/// The reply that ended a session.
proof fn lemma_last_reply(session: SessionView, replies: Seq<ReplyView>) -> (last: int)
    requires
        proper(session),
        session.outcome is Pending,
        !(run(session, replies).outcome is Pending),
    ensures
        0 <= last < replies.len(),
        run(session, replies.take(last)).outcome is Pending,
        proper(run(session, replies.take(last))),
        run(session, replies.take(last)).request == session.request,
        after(run(session, replies.take(last)), replies[last]) == run(session, replies),
    decreases replies.len(),
{
    let next = after(session, replies[0]);
    let rest = replies.drop_first();
    if next.outcome is Pending {
        let i = lemma_last_reply(next, rest);
        assert(replies.take(i + 1).drop_first() =~= rest.take(i));
        assert(replies.take(i + 1)[0] == replies[0]);
        assert(rest[i] == replies[i + 1]);
        lemma_stays_proper(session, replies.take(i + 1));
        i + 1
    } else {
        a_finished_session_stays_as_it_is(next, rest);
        assert(replies.take(0).len() == 0);
        0
    }
}

/// A removal is due, and a prompt is raised, only once a credential was found.
proof fn lemma_found_before(session: SessionView, replies: Seq<ReplyView>)
    requires
        proper(session),
        session.step == Step::Open || session.step == Step::Find,
        session.request == Request::Retrieve || session.request == Request::Delete,
        run(session, replies).step != Step::Open,
        run(session, replies).step != Step::Find,
        run(session, replies).step != Step::Finished,
    ensures
        exists|i: int|
            {
                &&& 0 <= i < replies.len()
                &&& run(session, replies.take(i)).step == Step::Find
                &&& #[trigger] replies[i] is Done
            },
    decreases replies.len(),
{
    assert(replies.len() > 0);
    let next = after(session, replies[0]);
    let rest = replies.drop_first();
    if next.step == Step::Open || next.step == Step::Find {
        lemma_found_before(next, rest);
        let i = choose|i: int|
            {
                &&& 0 <= i < rest.len()
                &&& run(next, rest.take(i)).step == Step::Find
                &&& #[trigger] rest[i] is Done
            };
        assert(replies.take(i + 1).drop_first() =~= rest.take(i));
        assert(replies.take(i + 1)[0] == replies[0]);
        assert(replies[i + 1] == rest[i]);
    } else if next.step == Step::Finished {
        a_finished_session_stays_as_it_is(next, rest);
    } else {
        assert(replies.take(0).len() == 0);
        assert(run(session, replies.take(0)) == session);
        assert(session.step == Step::Find);
        assert(replies[0] is Done);
    }
}

/// In a whole session, from its beginning on: what the outcome says was done by the
/// call that was made for it, and that call succeeded.
pub proof fn outcomes_were_brought_about(request: Request, replies: Seq<ReplyView>)
    requires
        !(run(opened(request), replies).outcome is Pending),
    ensures
        exists|last: int|
            {
                let before = run(opened(request), replies.take(last));
                let end = run(opened(request), replies);
                &&& 0 <= last < replies.len()
                &&& end.outcome is Stored ==> request == Request::Store && before.step
                    == Step::Insert && #[trigger] replies[last] is Done
                &&& end.outcome is Deleted ==> request == Request::Delete && before.step
                    == Step::Remove && replies[last] is Done
                &&& end.outcome matches OutcomeView::Released(passphrase) ==> request
                    == Request::Retrieve && before.step == Step::ReadPassword && (
                replies[last] matches ReplyView::Password(Some(text)) && passphrase == text)
                &&& end.outcome matches OutcomeView::Listed(keys) ==> request == Request::List && (
                replies[last] matches ReplyView::Names(names) ==> keys == entries_of(names))
            },
        run(opened(request), replies).outcome is Deleted || run(
            opened(request),
            replies,
        ).outcome is Released ==> exists|i: int|
            {
                &&& 0 <= i < replies.len()
                &&& run(opened(request), replies.take(i)).step == Step::Find
                &&& #[trigger] replies[i] is Done
            },
{
    let start = opened(request);
    let last = lemma_last_reply(start, replies);
    let early = replies.take(last);
    let before = run(start, early);
    every_outcome_has_its_cause(before, replies[last]);
    outcomes_carry_what_was_read(before, replies[last]);
    assert(replies[last] == replies[last]);
    let outcome = run(start, replies).outcome;
    if outcome is Deleted || outcome is Released {
        lemma_found_before(start, early);
        let i = choose|i: int|
            {
                &&& 0 <= i < early.len()
                &&& run(start, early.take(i)).step == Step::Find
                &&& #[trigger] early[i] is Done
            };
        assert(early.take(i) =~= replies.take(i));
        assert(early[i] == replies[i]);
    }
}

/// A listing holds one entry for each of the credentials, in their order, by the
/// user name and without a comment.
pub proof fn credentials_are_listed_one_by_one(names: Seq<Option<Seq<char>>>)
    ensures
        entries_of(names).len() == names.len(),
        forall|i: int|
            0 <= i < names.len() ==> {
                &&& (#[trigger] entries_of(names)[i]).comment is None
                &&& names[i] matches Some(name) ==> entries_of(names)[i].fingerprint == name
                &&& names[i] is None ==> entries_of(names)[i].fingerprint.len() == 0
            },
{
}

/// A credential is filed under the fingerprint of its key; Windows Hello is usable
/// exactly if the query for it was answered with yes.
pub proof fn credentials_name_their_key(
    key_id: &str,
    fingerprint: Seq<char>,
    account: &str,
    answer: Option<bool>,
    usable: bool,
)
    requires
        key_id@ == key_id_of(fingerprint),
        call_ensures(account_of, (key_id,), account),
        call_ensures(hello_available, (answer,), usable),
    ensures
        account@ == fingerprint,
        usable <==> (answer matches Some(available) && available),
        RESOURCE@ == "org.SpacecraftSoftware.gitway.ssh-passphrase"@,
        CONSENT_MESSAGE@ == "Unlock your SSH key"@,
{
    fingerprint_of_key_id(fingerprint);
}

/// A session that is driven by calls is the session that its replies make, and its
/// outcome is the one that they lead to.
pub proof fn sessions_follow_their_replies(
    request: Request,
    start: Session,
    one: Reply,
    next: Session,
    two: Reply,
    last: Session,
    outcome: Outcome,
)
    requires
        call_ensures(Session::start, (request,), start),
        call_ensures(Session::reply, (start, one), next),
        call_ensures(Session::reply, (next, two), last),
        call_ensures(Session::outcome, (last,), outcome),
    ensures
        last@ == run(opened(request), seq![one@, two@]),
        outcome@ == run(opened(request), seq![one@, two@]).outcome,
        forall|step: Step| #[trigger]
            call_ensures(Session::step, (&last,), step) ==> step == last@.step,
{
    let replies = seq![one@, two@];
    let rest = replies.drop_first();
    assert(rest[0] == two@);
    assert(rest.drop_first().len() == 0);
    assert(run(last@, rest.drop_first()) == last@);
    assert(run(next@, rest) == last@);
}

/// A reply is seen as it is: the consent, the password and the names, or the status
/// and the message of a failure, and nothing else.
pub proof fn replies_are_seen_as_they_are(reply: Reply)
    ensures
        match reply {
            Reply::Done => reply@ is Done,
            Reply::Failed { code, why } => reply@ == (ReplyView::Failed { code, why: why@ }),
            Reply::Consent(given) => reply@ == ReplyView::Consent(given),
            Reply::Password(Some(text)) => reply@ == ReplyView::Password(Some(text@)),
            Reply::Password(None) => reply@ matches ReplyView::Password(text) && text is None,
            Reply::Names(names) => reply@ matches ReplyView::Names(list) && list.len()
                == names@.len() && forall|i: int|
                0 <= i < list.len() ==> {
                    &&& names@[i] is None ==> (#[trigger] list[i]) is None
                    &&& names@[i] matches Some(name) ==> list[i] == Some(name@)
                },
        },
{
}

} // verus!
