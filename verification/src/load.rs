//! Loading key files into the agent, with biometric unlock where it helps.
//!
//! A [`Run`] says what is due for the current key file; the caller performs it
//! and hands the reply back, until all files are done.

use vstd::prelude::*;

use crate::args::texts;
use crate::biometric::{
    judge_release, key_id, key_id_of, reply_view, unlock_outcome, AutoUnlock, AutoUnlockView, BiometricError, ErrorView, Result, UnlockMode,
};
use crate::errors::{
    CliError, CliErrorView, ReadFailureView, EXIT_NEEDS_INTERACTIVE, EXIT_NOT_FOUND, EXIT_OK,
    EXIT_USER_DECLINED,
};
use crate::files::{content_text, parse_message, Content, ContentView};
use crate::keys::{
    private_key_decryption, private_key_encrypted, private_key_failure, private_key_fingerprint,
    public_key_fingerprint, HashAlg, PrivateKey, PublicKey,
};
use crate::report::{stderr, stdout, Line, LineView, Stream};
use crate::secret::{secret_text, Secret};
use crate::text::{first_line, first_line_is_maximal, first_line_of, join2, join3, same};

verus! {

/// What is due for the current key file.
#[derive(Debug, Clone, Copy, PartialEq, Eq, Structural)]
pub enum Step {
    /// Read the file.
    ReadFile,
    /// Ask the vault to release the stored passphrase.
    Retrieve,
    /// Ask the vault to delete the stale enrollment.
    Delete,
    /// Ask the user to type the passphrase.
    Prompt,
    /// Ask the vault to store the passphrase.
    Store,
    /// Add the key to the agent.
    AddKey,
    /// All files are done.
    Finished,
    /// A key could not be read, parsed or decrypted, which ends the run.
    Failed,
}

/// The reply to what was due.
pub enum Reply {
    /// The content of the file, or why it cannot be read.
    Content(Content),
    /// The stored passphrase, or why the vault did not release it.
    Retrieved(Result<Secret>),
    /// The vault was asked to delete the enrollment, with or without success.
    Deleted,
    /// The passphrase that was typed.
    Typed(Secret),
    /// Whether the vault stored the passphrase.
    Stored(Result<()>),
    /// The agent added the key.
    Added,
}

/// A [`Reply`] with its texts.
pub enum ReplyView {
    Content(ContentView),
    Retrieved(core::result::Result<Seq<char>, ErrorView>),
    Deleted,
    Typed(Seq<char>),
    Stored(core::result::Result<(), ErrorView>),
    Added,
}

impl View for Reply {
    type V = ReplyView;

    open spec fn view(&self) -> ReplyView {
        match self {
            Reply::Content(content) => ReplyView::Content(content_text(*content)),
            Reply::Retrieved(reply) => ReplyView::Retrieved(reply_view(*reply)),
            Reply::Deleted => ReplyView::Deleted,
            Reply::Typed(passphrase) => ReplyView::Typed(passphrase@),
            Reply::Stored(outcome) => ReplyView::Stored(
                match *outcome {
                    Ok(_) => Ok(()),
                    Err(error) => Err(error@),
                },
            ),
            Reply::Added => ReplyView::Added,
        }
    }
}

/// A loading run under way.
pub struct Run {
    paths: Vec<String>,
    unlock: UnlockMode,
    /// The keys that the agent held at the beginning.
    loaded: Vec<PublicKey>,
    step: Step,
    /// The number of files that are done.
    done: usize,
    /// The key of the current file, once it was read.
    key: Option<PrivateKey>,
    /// The passphrase to store.
    passphrase: Option<Secret>,
    /// The text of the key to add.
    plain: Option<Secret>,
    /// What is printed after the last reply.
    notice: Option<Line>,
    exit: u32,
    failure: Option<CliError>,
}

/// A [`Run`] with its texts.
pub struct RunView {
    pub paths: Seq<Seq<char>>,
    pub unlock: UnlockMode,
    pub loaded: Seq<Seq<char>>,
    pub step: Step,
    pub done: int,
    pub key: Option<Seq<char>>,
    pub passphrase: Option<Seq<char>>,
    pub plain: Option<Seq<char>>,
    pub notice: Option<LineView>,
    pub exit: u32,
    pub failure: Option<CliErrorView>,
}

/// The texts of a list of public keys.
pub open spec fn public_texts(keys: Seq<PublicKey>) -> Seq<Seq<char>> {
    keys.map_values(|key: PublicKey| key@)
}

impl View for Run {
    type V = RunView;

    closed spec fn view(&self) -> RunView {
        RunView {
            paths: texts(self.paths@),
            unlock: self.unlock,
            loaded: public_texts(self.loaded@),
            step: self.step,
            done: self.done as int,
            key: match self.key {
                Some(key) => Some(key@),
                None => None,
            },
            passphrase: secret_text(self.passphrase),
            plain: secret_text(self.plain),
            notice: match self.notice {
                Some(line) => Some(line@),
                None => None,
            },
            exit: self.exit,
            failure: match self.failure {
                Some(error) => Some(error@),
                None => None,
            },
        }
    }
}

impl RunView {
    /// The path of the current file.
    pub open spec fn path(self) -> Seq<char> {
        self.paths[self.done]
    }
}

/// Whether one of the keys has the given SHA-256 fingerprint.
pub open spec fn holds(loaded: Seq<Seq<char>>, fingerprint: Seq<char>) -> bool {
    exists|i: int|
        0 <= i < loaded.len() && #[trigger] public_key_fingerprint(loaded[i], false) == fingerprint
}

/// A run at its beginning.
pub open spec fn begun(
    paths: Seq<Seq<char>>,
    unlock: UnlockMode,
    loaded: Seq<Seq<char>>,
) -> RunView {
    RunView {
        paths,
        unlock,
        loaded,
        step: if paths.len() == 0 {
            Step::Finished
        } else {
            Step::ReadFile
        },
        done: 0,
        key: None,
        passphrase: None,
        plain: None,
        notice: None,
        exit: EXIT_OK,
        failure: None,
    }
}

/// A run that is done with the current file.
pub open spec fn advanced(run: RunView, notice: LineView) -> RunView {
    RunView {
        step: if run.done + 1 < run.paths.len() {
            Step::ReadFile
        } else {
            Step::Finished
        },
        done: run.done + 1,
        key: None,
        passphrase: None,
        plain: None,
        notice: Some(notice),
        ..run
    }
}

/// A run that ended with an error.
pub open spec fn broken(run: RunView, error: CliErrorView) -> RunView {
    RunView {
        step: Step::Failed,
        key: None,
        passphrase: None,
        plain: None,
        notice: None,
        failure: Some(error),
        ..run
    }
}

/// A run that is about to add a key to the agent.
pub open spec fn adding(run: RunView, plain: Seq<char>, notice: Option<LineView>) -> RunView {
    RunView { step: Step::AddKey, passphrase: None, plain: Some(plain), notice, ..run }
}

/// A run that asks for the passphrase.
pub open spec fn prompting(run: RunView, notice: Option<LineView>) -> RunView {
    RunView { step: Step::Prompt, notice, ..run }
}

/// A run after the file was read, if it could be.
pub open spec fn after_reading(run: RunView, content: ContentView) -> RunView {
    match content {
        Err(failure) => broken(run, CliErrorView::Unreadable(failure)),
        Ok(pem) => after_content(run, pem),
    }
}

/// A run after the content of the file is known.  A key that the agent already holds is
/// skipped, unless it is to be enrolled; a key without a passphrase is added as
/// it is.
pub open spec fn after_content(run: RunView, pem: Seq<char>) -> RunView {
    match private_key_failure(pem) {
        Some(why) => broken(run, CliErrorView::InvalidConfig(parse_message(run.path(), why))),
        None => if run.unlock != UnlockMode::Enroll && holds(
            run.loaded,
            private_key_fingerprint(pem),
        ) {
            advanced(
                run,
                LineView {
                    stream: Stream::Stdout,
                    text: "Identity already loaded: "@ + run.path(),
                },
            )
        } else if !private_key_encrypted(pem) {
            adding(RunView { key: Some(pem), ..run }, pem, None)
        } else if run.unlock == UnlockMode::Auto {
            RunView { step: Step::Retrieve, key: Some(pem), notice: None, ..run }
        } else {
            prompting(RunView { key: Some(pem), ..run }, None)
        },
    }
}

/// A run after the vault answered.  A passphrase that still decrypts the key is
/// used; one that does not is deleted; any failure falls back to the prompt.
pub open spec fn after_retrieved(
    run: RunView,
    pem: Seq<char>,
    reply: core::result::Result<Seq<char>, ErrorView>,
) -> RunView {
    match unlock_outcome(pem, reply) {
        AutoUnlockView::Passphrase(passphrase) => after_decryption(run, pem, passphrase, false),
        AutoUnlockView::Stale => RunView { step: Step::Delete, notice: None, ..run },
        AutoUnlockView::Fallback => prompting(run, None),
    }
}

/// The notice of a stale enrollment.
pub open spec fn stale_notice(path: Seq<char>) -> LineView {
    LineView {
        stream: Stream::Stderr,
        text: "gitway-add: stored biometric passphrase no longer decrypts "@ + path
            + " — removed stale enrollment"@,
    }
}

/// A run after a passphrase was tried on the key, which is then enrolled or
/// added.
pub open spec fn after_decryption(
    run: RunView,
    pem: Seq<char>,
    passphrase: Seq<char>,
    enroll: bool,
) -> RunView {
    match private_key_decryption(pem, passphrase) {
        Err(why) => broken(run, CliErrorView::Signing("decrypt failed: "@ + why)),
        Ok(plain) => if enroll {
            RunView {
                step: Step::Store,
                passphrase: Some(passphrase),
                plain: Some(plain),
                notice: None,
                ..run
            }
        } else {
            adding(run, plain, None)
        },
    }
}

/// The exit code of a load that was to enroll a key: biometric unlock was
/// requested explicitly, so a missing backend and a declined prompt show in it.
pub open spec fn enrollment_exit(exit: u32, error: ErrorView) -> u32 {
    match error {
        ErrorView::Unavailable(_) => EXIT_NEEDS_INTERACTIVE,
        ErrorView::Cancelled => EXIT_USER_DECLINED,
        _ => exit,
    }
}

/// A run after the vault was asked to store the passphrase.  The key is added
/// either way.
pub open spec fn after_stored(
    run: RunView,
    plain: Seq<char>,
    outcome: core::result::Result<(), ErrorView>,
) -> RunView {
    match outcome {
        Ok(_) => adding(
            run,
            plain,
            Some(
                LineView {
                    stream: Stream::Stderr,
                    text: "gitway-add: enrolled "@ + run.path() + " for biometric unlock"@,
                },
            ),
        ),
        Err(error) => adding(
            RunView { exit: enrollment_exit(run.exit, error), ..run },
            plain,
            Some(
                LineView {
                    stream: Stream::Stderr,
                    text: "gitway-add: warning: biometric enrollment failed: "@ + error.message(),
                },
            ),
        ),
    }
}

/// A run after a reply.  A reply that does not answer what is due changes
/// nothing.
pub open spec fn after(run: RunView, reply: ReplyView) -> RunView {
    match (run.step, reply, run.key) {
        (Step::ReadFile, ReplyView::Content(content), _) => after_reading(run, content),
        (Step::Retrieve, ReplyView::Retrieved(reply), Some(pem)) => after_retrieved(
            run,
            pem,
            reply,
        ),
        (Step::Delete, ReplyView::Deleted, _) => prompting(run, Some(stale_notice(run.path()))),
        (Step::Prompt, ReplyView::Typed(passphrase), Some(pem)) => after_decryption(
            run,
            pem,
            passphrase,
            run.unlock == UnlockMode::Enroll,
        ),
        (Step::Store, ReplyView::Stored(outcome), _) => match run.plain {
            Some(plain) => after_stored(run, plain, outcome),
            None => run,
        },
        (Step::AddKey, ReplyView::Added, _) => advanced(
            run,
            LineView { stream: Stream::Stdout, text: "Identity added: "@ + run.path() },
        ),
        (_, _, _) => run,
    }
}

/// `plain` is the key of `pem` in a form that the agent can use: the key itself
/// where it has no passphrase, and otherwise what some passphrase decrypts it
/// to.
pub open spec fn usable_form(pem: Seq<char>, plain: Seq<char>) -> bool {
    if private_key_encrypted(pem) {
        exists|passphrase: Seq<char>| #[trigger]
            private_key_decryption(pem, passphrase) == Ok::<Seq<char>, Seq<char>>(plain)
    } else {
        plain == pem
    }
}

/// What holds of a run at any time.
pub open spec fn proper(run: RunView) -> bool {
    &&& 0 <= run.done <= run.paths.len()
    &&& run.exit == EXIT_OK || (run.unlock == UnlockMode::Enroll && (run.exit
        == EXIT_NEEDS_INTERACTIVE || run.exit == EXIT_USER_DECLINED))
    &&& run.failure is Some <==> run.step == Step::Failed
    &&& match run.step {
        Step::ReadFile => {
            &&& run.done < run.paths.len()
            &&& run.key is None && run.passphrase is None && run.plain is None
        },
        Step::Retrieve => current_is_encrypted(run) && run.unlock == UnlockMode::Auto,
        Step::Delete => current_is_encrypted(run) && run.unlock == UnlockMode::Auto,
        Step::Prompt => current_is_encrypted(run),
        Step::Store => {
            &&& run.done < run.paths.len()
            &&& run.unlock == UnlockMode::Enroll
            &&& run.key matches Some(pem)
            &&& private_key_encrypted(pem)
            &&& run.passphrase matches Some(passphrase)
            &&& run.plain matches Some(plain)
            &&& private_key_decryption(pem, passphrase) == Ok::<Seq<char>, Seq<char>>(plain)
        },
        Step::AddKey => {
            &&& run.done < run.paths.len()
            &&& run.key matches Some(pem)
            &&& run.plain matches Some(plain)
            &&& usable_form(pem, plain)
            &&& run.passphrase is None
            &&& run.unlock != UnlockMode::Enroll ==> !holds(
                run.loaded,
                private_key_fingerprint(pem),
            )
        },
        Step::Finished => run.done == run.paths.len() && run.key is None && run.plain is None,
        Step::Failed => run.key is None && run.plain is None,
    }
}

/// The current file holds an encrypted key that is to be unlocked.
pub open spec fn current_is_encrypted(run: RunView) -> bool {
    &&& run.done < run.paths.len()
    &&& run.key matches Some(pem)
    &&& private_key_encrypted(pem)
    &&& run.passphrase is None && run.plain is None
    &&& run.unlock != UnlockMode::Enroll ==> !holds(run.loaded, private_key_fingerprint(pem))
}

proof fn lemma_after(run: RunView, reply: ReplyView)
    requires
        proper(run),
    ensures
        proper(after(run, reply)),
        after(run, reply).paths == run.paths,
        after(run, reply).unlock == run.unlock,
        after(run, reply).loaded == run.loaded,
{
    match (run.step, reply, run.key) {
        (Step::Retrieve, ReplyView::Retrieved(reply), Some(pem)) => {
            match unlock_outcome(pem, reply) {
                AutoUnlockView::Passphrase(passphrase) => {
                    assert(private_key_decryption(pem, passphrase) is Ok);
                },
                _ => {},
            }
        },
        (Step::Prompt, ReplyView::Typed(passphrase), Some(pem)) => {
            assert(private_key_decryption(pem, passphrase) is Ok || private_key_decryption(
                pem,
                passphrase,
            ) is Err);
        },
        (Step::Store, ReplyView::Stored(outcome), Some(pem)) => {
            assert(private_key_decryption(pem, run.passphrase->0) is Ok);
        },
        (_, _, _) => {},
    }
}

/// Whether one of the keys has the given SHA-256 fingerprint.
fn is_loaded(loaded: &Vec<PublicKey>, fingerprint: &str) -> (r: bool)
    ensures
        r == holds(public_texts(loaded@), fingerprint@),
{
    let ghost all = public_texts(loaded@);
    let mut i: usize = 0;
    while i < loaded.len()
        invariant
            i <= loaded@.len(),
            all == public_texts(loaded@),
            forall|j: int|
                0 <= j < i ==> #[trigger] public_key_fingerprint(all[j], false) != fingerprint@,
        decreases loaded@.len() - i,
    {
        let other: String = loaded[i].fingerprint(HashAlg::Sha256);
        assert(all[i as int] == loaded@[i as int]@);
        if same(other.as_str(), fingerprint) {
            assert(public_key_fingerprint(all[i as int], false) == fingerprint@);
            return true;
        }
        i += 1;
    }
    false
}

impl Run {
    #[verifier::type_invariant]
    spec fn is_proper(self) -> bool {
        &&& proper(self@)
        &&& self@.plain matches Some(plain) ==> {
            &&& self@.key matches Some(pem)
            &&& private_key_failure(plain) is None
            &&& !private_key_encrypted(plain)
            &&& private_key_fingerprint(plain) == private_key_fingerprint(pem)
        }
    }

    /// Begins a run over the given key files.  `loaded` are the keys that the
    /// agent already holds, as far as it can be listed.
    pub fn start(paths: Vec<String>, unlock: UnlockMode, loaded: Vec<PublicKey>) -> (r: Run)
        ensures
            r@ == begun(texts(paths@), unlock, public_texts(loaded@)),
    {
        assert(texts(paths@).len() == paths@.len());
        let step: Step = if paths.is_empty() {
            Step::Finished
        } else {
            Step::ReadFile
        };
        Run {
            paths,
            unlock,
            loaded,
            step,
            done: 0,
            key: None,
            passphrase: None,
            plain: None,
            notice: None,
            exit: EXIT_OK,
            failure: None,
        }
    }

    /// What is due.
    pub fn step(&self) -> (r: Step)
        ensures
            r == self@.step,
    {
        self.step
    }

    /// What is printed after the last reply.
    pub fn notice(&self) -> (r: Option<&Line>)
        ensures
            (match r {
                Some(line) => Some(line@),
                None => None,
            }) == self@.notice,
    {
        match &self.notice {
            Some(line) => Some(line),
            None => None,
        }
    }

    /// The path of the current file, unless the run is over.
    pub fn path(&self) -> (r: Option<&str>)
        ensures
            match r {
                Some(path) => self@.step != Step::Finished && self@.step != Step::Failed && path@
                    == self@.path(),
                None => self@.step == Step::Finished || self@.step == Step::Failed,
            },
    {
        proof {
            use_type_invariant(self);
        }
        assert(texts(self.paths@).len() == self.paths@.len());
        if self.step == Step::Finished || self.step == Step::Failed {
            None
        } else {
            Some(self.paths[self.done].as_str())
        }
    }

    /// The identifier of the current key in the vault, when the vault is what is
    /// due.
    pub fn vault_id(&self) -> (r: Option<String>)
        ensures
            match r {
                Some(id) => {
                    &&& self@.step == Step::Retrieve || self@.step == Step::Delete || self@.step
                        == Step::Store
                    &&& self@.key matches Some(pem)
                    &&& id@ == key_id_of(private_key_fingerprint(pem))
                },
                None => self@.step != Step::Retrieve && self@.step != Step::Delete && self@.step
                    != Step::Store,
            },
    {
        proof {
            use_type_invariant(self);
        }
        if self.step != Step::Retrieve && self.step != Step::Delete && self.step != Step::Store {
            return None;
        }
        match &self.key {
            Some(key) => Some(key_id(key)),
            None => None,
        }
    }

    /// The passphrase that the vault is asked to store, when that is what is
    /// due.
    pub fn passphrase_to_store(&self) -> (r: Option<&Secret>)
        ensures
            match r {
                Some(passphrase) => self@.step == Step::Store && self@.passphrase == Some(
                    passphrase@,
                ),
                None => self@.step != Step::Store,
            },
    {
        proof {
            use_type_invariant(self);
        }
        if self.step != Step::Store {
            return None;
        }
        match &self.passphrase {
            Some(passphrase) => Some(passphrase),
            None => None,
        }
    }

    /// The text of the key to add to the agent, when that is what is due.  It is
    /// that of a key which needs no passphrase and has the fingerprint of the key
    /// in the file.
    pub fn key_to_add(&self) -> (r: Option<&Secret>)
        ensures
            match r {
                Some(plain) => {
                    &&& self@.step == Step::AddKey
                    &&& self@.plain == Some(plain@)
                    &&& self@.key matches Some(pem)
                    &&& usable_form(pem, plain@)
                    &&& private_key_failure(plain@) is None
                    &&& !private_key_encrypted(plain@)
                    &&& private_key_fingerprint(plain@) == private_key_fingerprint(pem)
                },
                None => self@.step != Step::AddKey,
            },
    {
        proof {
            use_type_invariant(self);
        }
        if self.step != Step::AddKey {
            return None;
        }
        match &self.plain {
            Some(plain) => Some(plain),
            None => None,
        }
    }

    /// How the run ended: its exit code, or the error that ended it.
    pub fn result(self) -> (r: core::result::Result<u32, CliError>)
        ensures
            (match r {
                Ok(code) => Ok(code),
                Err(error) => Err(error@),
            }) == (match self@.failure {
                Some(error) => Err(error),
                None => Ok(self@.exit),
            }),
    {
        match self.failure {
            Some(error) => Err(error),
            None => Ok(self.exit),
        }
    }

    /// Is done with the current file.
    fn advance(self, notice: Line) -> (r: Run)
        requires
            self@.done < self@.paths.len(),
            self@.step != Step::Failed,
        ensures
            r@ == advanced(self@, notice@),
    {
        proof {
            use_type_invariant(&self);
        }
        assert(texts(self.paths@).len() == self.paths@.len());
        let total: usize = self.paths.len();
        let done: usize = self.done + 1;
        let step: Step = if done < total {
            Step::ReadFile
        } else {
            Step::Finished
        };
        Run {
            paths: self.paths,
            unlock: self.unlock,
            loaded: self.loaded,
            step,
            done,
            key: None,
            passphrase: None,
            plain: None,
            notice: Some(notice),
            exit: self.exit,
            failure: self.failure,
        }
    }

    /// Ends the run with an error.
    fn fail(self, error: CliError) -> (r: Run)
        ensures
            r@ == broken(self@, error@),
    {
        proof {
            use_type_invariant(&self);
        }
        Run {
            paths: self.paths,
            unlock: self.unlock,
            loaded: self.loaded,
            step: Step::Failed,
            done: self.done,
            key: None,
            passphrase: None,
            plain: None,
            notice: None,
            exit: self.exit,
            failure: Some(error),
        }
    }

    /// Takes the content of the current file.
    fn take_content(self, pem: String) -> (r: Run)
        requires
            self@.step == Step::ReadFile,
        ensures
            r@ == after_content(self@, pem@),
    {
        proof {
            use_type_invariant(&self);
            lemma_after(self@, ReplyView::Content(Ok(pem@)));
        }
        assert(texts(self.paths@).len() == self.paths@.len());
        let path: String = self.paths[self.done].clone();
        let key: PrivateKey = match PrivateKey::from_openssh(pem.as_str()) {
            Ok(key) => key,
            Err(why) => {
                let message: String = join2(
                    join3("cannot parse ", path.as_str(), ": ").as_str(),
                    why.as_str(),
                );
                return self.fail(CliError::InvalidConfig(message));
            },
        };
        if self.unlock != UnlockMode::Enroll && is_loaded(
            &self.loaded,
            key.fingerprint().as_str(),
        ) {
            return self.advance(stdout(join2("Identity already loaded: ", path.as_str())));
        }
        if !key.is_encrypted() {
            Run {
                step: Step::AddKey,
                key: Some(key),
                passphrase: None,
                plain: Some(Secret::new(pem)),
                notice: None,
                ..self
            }
        } else if self.unlock == UnlockMode::Auto {
            Run { step: Step::Retrieve, key: Some(key), notice: None, ..self }
        } else {
            Run { step: Step::Prompt, key: Some(key), notice: None, ..self }
        }
    }

    /// Tries a passphrase on the current key.
    fn take_passphrase(self, passphrase: Secret, enroll: bool) -> (r: Run)
        requires
            self@.step == Step::Retrieve || self@.step == Step::Prompt,
            enroll == (self@.unlock == UnlockMode::Enroll),
        ensures
            self@.key matches Some(pem) && r@ == after_decryption(
                self@,
                pem,
                passphrase@,
                enroll,
            ),
    {
        proof {
            use_type_invariant(&self);
        }
        let decrypted: core::result::Result<Secret, String> = match &self.key {
            Some(key) => key.decrypt(&passphrase),
            None => Err(String::new()),
        };
        match decrypted {
            Err(why) => self.fail(CliError::Signing(join2("decrypt failed: ", why.as_str()))),
            Ok(plain) => if enroll {
                Run {
                    step: Step::Store,
                    passphrase: Some(passphrase),
                    plain: Some(plain),
                    notice: None,
                    ..self
                }
            } else {
                Run {
                    step: Step::AddKey,
                    passphrase: None,
                    plain: Some(plain),
                    notice: None,
                    ..self
                }
            },
        }
    }

    /// Takes the answer of the vault to the request for the passphrase.
    fn take_retrieved(self, reply: Result<Secret>) -> (r: Run)
        requires
            self@.step == Step::Retrieve,
        ensures
            self@.key matches Some(pem) && r@ == after_retrieved(self@, pem, reply_view(reply)),
    {
        proof {
            use_type_invariant(&self);
        }
        let outcome: AutoUnlock = match &self.key {
            Some(key) => judge_release(key, reply).0,
            None => AutoUnlock::Fallback,
        };
        match outcome {
            AutoUnlock::Passphrase(passphrase) => self.take_passphrase(passphrase, false),
            AutoUnlock::Stale => Run { step: Step::Delete, notice: None, ..self },
            AutoUnlock::Fallback => Run { step: Step::Prompt, notice: None, ..self },
        }
    }

    /// Takes the answer of the vault to the request to store the passphrase.
    fn take_stored(self, outcome: Result<()>) -> (r: Run)
        requires
            self@.step == Step::Store,
        ensures
            r@ == after(self@, Reply::Stored(outcome)@),
    {
        proof {
            use_type_invariant(&self);
            lemma_after(self@, Reply::Stored(outcome)@);
        }
        assert(texts(self.paths@).len() == self.paths@.len());
        let exit: u32 = match &outcome {
            Err(BiometricError::Unavailable(_)) => EXIT_NEEDS_INTERACTIVE,
            Err(BiometricError::Cancelled) => EXIT_USER_DECLINED,
            _ => self.exit,
        };
        let text: String = match outcome {
            Ok(_) => join3(
                "gitway-add: enrolled ",
                self.paths[self.done].as_str(),
                " for biometric unlock",
            ),
            Err(error) => join2(
                "gitway-add: warning: biometric enrollment failed: ",
                error.to_string().as_str(),
            ),
        };
        Run {
            paths: self.paths,
            unlock: self.unlock,
            loaded: self.loaded,
            step: Step::AddKey,
            done: self.done,
            key: self.key,
            passphrase: None,
            plain: self.plain,
            notice: Some(stderr(text)),
            exit,
            failure: self.failure,
        }
    }

    /// Takes the reply to what was due.  A reply that does not answer it is
    /// ignored.
    pub fn reply(self, reply: Reply) -> (r: Run)
        ensures
            r@ == after(self@, reply@),
    {
        proof {
            use_type_invariant(&self);
            lemma_after(self@, reply@);
        }
        assert(texts(self.paths@).len() == self.paths@.len());
        let step: Step = self.step;
        match reply {
            Reply::Content(content) => if step == Step::ReadFile {
                match content {
                    Ok(pem) => self.take_content(pem),
                    Err(failure) => self.fail(CliError::Unreadable(failure)),
                }
            } else {
                self
            },
            Reply::Retrieved(reply) => if step == Step::Retrieve {
                self.take_retrieved(reply)
            } else {
                self
            },
            Reply::Deleted => if step == Step::Delete {
                let text: String = join3(
                    "gitway-add: stored biometric passphrase no longer decrypts ",
                    self.paths[self.done].as_str(),
                    " — removed stale enrollment",
                );
                Run { step: Step::Prompt, notice: Some(stderr(text)), ..self }
            } else {
                self
            },
            Reply::Typed(passphrase) => if step == Step::Prompt {
                let enroll: bool = self.unlock == UnlockMode::Enroll;
                self.take_passphrase(passphrase, enroll)
            } else {
                self
            },
            Reply::Stored(outcome) => if step == Step::Store {
                self.take_stored(outcome)
            } else {
                self
            },
            Reply::Added => if step == Step::AddKey {
                let text: String = join2("Identity added: ", self.paths[self.done].as_str());
                self.advance(stdout(text))
            } else {
                self
            },
        }
    }
}

/// The prompt for the passphrase of a key file.
pub fn passphrase_prompt(path: &str) -> (r: String)
    ensures
        r@ == "Enter passphrase for "@ + path@ + ": "@,
{
    join3("Enter passphrase for ", path, ": ")
}

/// The passphrase in what was read from a standard input that is no terminal:
/// its first line, without the newline.
pub fn passphrase_from_input(input: &str) -> (r: Secret)
    ensures
        r@ == first_line_of(input@),
{
    Secret::new(first_line(input).to_owned())
}

/// A run after a sequence of replies.
pub open spec fn run(state: RunView, replies: Seq<ReplyView>) -> RunView
    decreases replies.len(),
{
    if replies.len() == 0 {
        state
    } else {
        run(after(state, replies[0]), replies.drop_first())
    }
}

proof fn lemma_run(state: RunView, replies: Seq<ReplyView>)
    requires
        proper(state),
    ensures
        proper(run(state, replies)),
        run(state, replies).unlock == state.unlock,
        run(state, replies).loaded == state.loaded,
        run(state, replies).paths == state.paths,
    decreases replies.len(),
{
    if replies.len() > 0 {
        lemma_after(state, replies[0]);
        lemma_run(after(state, replies[0]), replies.drop_first());
    }
}

/// Whatever the replies: what is added to the agent is the key of the current
/// file in usable form, and never a key that the agent already held unless it is
/// to be enrolled; what is stored in the vault decrypts its key.
pub proof fn only_usable_keys_are_added(
    paths: Seq<Seq<char>>,
    unlock: UnlockMode,
    loaded: Seq<Seq<char>>,
    replies: Seq<ReplyView>,
)
    ensures
        proper(run(begun(paths, unlock, loaded), replies)),
{
    lemma_run(begun(paths, unlock, loaded), replies);
}

/// Whatever the replies: with `--no-biometric` the vault is never asked for
/// anything, without a flag nothing is ever stored in it, and with `--biometric`
/// nothing is ever retrieved from it.
pub proof fn each_mode_keeps_to_its_part_of_the_vault(
    paths: Seq<Seq<char>>,
    unlock: UnlockMode,
    loaded: Seq<Seq<char>>,
    replies: Seq<ReplyView>,
)
    ensures
        ({
            let step = run(begun(paths, unlock, loaded), replies).step;
            &&& unlock == UnlockMode::Disabled ==> step != Step::Retrieve && step != Step::Delete
                && step != Step::Store
            &&& unlock == UnlockMode::Auto ==> step != Step::Store
            &&& unlock == UnlockMode::Enroll ==> step != Step::Retrieve && step != Step::Delete
        }),
{
    lemma_run(begun(paths, unlock, loaded), replies);
}

/// Whatever the replies: a load without `--biometric` that is not ended by an
/// error ends with success, so biometric unavailability never shows.
pub proof fn auto_loads_never_fail_on_biometrics(
    paths: Seq<Seq<char>>,
    unlock: UnlockMode,
    loaded: Seq<Seq<char>>,
    replies: Seq<ReplyView>,
)
    requires
        unlock != UnlockMode::Enroll,
    ensures
        run(begun(paths, unlock, loaded), replies).exit == EXIT_OK,
{
    lemma_run(begun(paths, unlock, loaded), replies);
}

/// A key file that is missing ends the run with the exit code that means "not
/// found".
pub proof fn missing_files_are_not_found(state: RunView, failure: ReadFailureView)
    requires
        proper(state),
        state.step == Step::ReadFile,
        failure.missing,
    ensures
        after(state, ReplyView::Content(Err(failure))).failure matches Some(error) && error.code()
            == EXIT_NOT_FOUND,
{
}

/// Whatever failure the vault reports on the auto path, the passphrase prompt is
/// what comes next, without a word.
pub proof fn a_failing_vault_leads_to_the_prompt(state: RunView, error: ErrorView)
    requires
        proper(state),
        state.step == Step::Retrieve,
    ensures
        after(state, ReplyView::Retrieved(Err(error))) == prompting(state, None),
{
}

/// A stale passphrase is deleted from the vault, noted, and followed by the
/// prompt.
pub proof fn a_stale_passphrase_is_deleted_before_the_prompt(
    state: RunView,
    passphrase: Seq<char>,
)
    requires
        proper(state),
        state.step == Step::Retrieve,
        state.key matches Some(pem) ==> private_key_decryption(pem, passphrase) is Err,
    ensures
        ({
            let stale = after(state, ReplyView::Retrieved(Ok(passphrase)));
            &&& stale.step == Step::Delete
            &&& after(stale, ReplyView::Deleted) == prompting(
                stale,
                Some(stale_notice(state.path())),
            )
        }),
{
}

/// Where biometric unlock was requested explicitly and no backend is available,
/// the exit code says so, and the key is loaded all the same.
pub proof fn explicit_enrollment_without_a_backend_shows(state: RunView, why: Seq<char>)
    requires
        proper(state),
        state.step == Step::Store,
    ensures
        ({
            let next = after(state, ReplyView::Stored(Err(ErrorView::Unavailable(why))));
            next.exit == EXIT_NEEDS_INTERACTIVE && next.step == Step::AddKey
        }),
{
}

/// Once an enrollment that was requested explicitly has failed for want of a
/// backend or of consent, no later reply makes the run a success.
pub proof fn a_failed_enrollment_stays_visible(state: RunView, replies: Seq<ReplyView>)
    requires
        proper(state),
        state.exit != EXIT_OK,
    ensures
        run(state, replies).exit != EXIT_OK,
    decreases replies.len(),
{
    if replies.len() > 0 {
        lemma_after(state, replies[0]);
        a_failed_enrollment_stays_visible(after(state, replies[0]), replies.drop_first());
    }
}

/// A key that the agent already holds is skipped: neither the vault nor the user
/// is asked for anything, and the next file is due.
pub proof fn loaded_keys_are_skipped_without_a_prompt(state: RunView, pem: Seq<char>)
    requires
        proper(state),
        state.step == Step::ReadFile,
        state.unlock != UnlockMode::Enroll,
        private_key_failure(pem) is None,
        holds(state.loaded, private_key_fingerprint(pem)),
    ensures
        ({
            let next = after(state, ReplyView::Content(Ok(pem)));
            &&& next.done == state.done + 1
            &&& next.step == Step::ReadFile || next.step == Step::Finished
        }),
{
}

/// With `--biometric` the passphrase of an encrypted key is asked for and stored
/// even where the agent already holds the key.
pub proof fn enrollment_runs_for_loaded_keys_too(state: RunView, pem: Seq<char>)
    requires
        proper(state),
        state.step == Step::ReadFile,
        state.unlock == UnlockMode::Enroll,
        private_key_failure(pem) is None,
        private_key_encrypted(pem),
    ensures
        after(state, ReplyView::Content(Ok(pem))).step == Step::Prompt,
        forall|passphrase: Seq<char>|
            private_key_decryption(pem, passphrase) is Ok ==> #[trigger] after(
                after(state, ReplyView::Content(Ok(pem))),
                ReplyView::Typed(passphrase),
            ).step == Step::Store,
{
}

/// Whether a reply answers what is due.
pub open spec fn answers(step: Step, reply: ReplyView) -> bool {
    match step {
        Step::ReadFile => reply is Content,
        Step::Retrieve => reply is Retrieved,
        Step::Delete => reply is Deleted,
        Step::Prompt => reply is Typed,
        Step::Store => reply is Stored,
        Step::AddKey => reply is Added,
        Step::Finished => false,
        Step::Failed => false,
    }
}

/// Whether every one of a sequence of replies answers what is due when it comes.
pub open spec fn all_answer(state: RunView, replies: Seq<ReplyView>) -> bool
    decreases replies.len(),
{
    replies.len() > 0 ==> answers(state.step, replies[0]) && all_answer(
        after(state, replies[0]),
        replies.drop_first(),
    )
}

/// The most replies that a run can still take.
spec fn remaining(run: RunView) -> int {
    let later = (run.paths.len() - run.done - 1) * 5;
    match run.step {
        Step::ReadFile => later + 5,
        Step::Retrieve => later + 4,
        Step::Delete => later + 3,
        Step::Prompt => if run.unlock == UnlockMode::Enroll {
            later + 3
        } else {
            later + 2
        },
        Step::Store => later + 2,
        Step::AddKey => later + 1,
        Step::Finished => 0,
        Step::Failed => 0,
    }
}

proof fn lemma_remaining(state: RunView, replies: Seq<ReplyView>)
    requires
        proper(state),
        all_answer(state, replies),
    ensures
        replies.len() <= remaining(state),
    decreases replies.len(),
{
    if replies.len() > 0 {
        let next = after(state, replies[0]);
        lemma_after(state, replies[0]);
        lemma_remaining(next, replies.drop_first());
        assert(remaining(next) < remaining(state));
    } else {
        assert(remaining(state) >= 0);
    }
}

/// A run never goes on for good: over any number of files, and whatever the
/// answers are, it takes at most five of them per file.
pub proof fn every_run_ends(
    paths: Seq<Seq<char>>,
    unlock: UnlockMode,
    loaded: Seq<Seq<char>>,
    replies: Seq<ReplyView>,
)
    requires
        all_answer(begun(paths, unlock, loaded), replies),
    ensures
        replies.len() <= 5 * paths.len(),
{
    lemma_remaining(begun(paths, unlock, loaded), replies);
}

/// A reply that does not answer what is due, and any reply to a run that is over,
/// changes nothing.
pub proof fn only_answers_change_a_run(state: RunView, reply: ReplyView)
    requires
        proper(state),
        !answers(state.step, reply),
    ensures
        after(state, reply) == state,
{
}

/// The file that was read holds a key that the agent holds already, and that is
/// not to be enrolled.
pub open spec fn is_skipped(state: RunView, reply: ReplyView) -> bool {
    &&& state.step == Step::ReadFile
    &&& state.unlock != UnlockMode::Enroll
    &&& reply matches ReplyView::Content(Ok(pem))
    &&& private_key_failure(pem) is None
    &&& holds(state.loaded, private_key_fingerprint(pem))
}

/// Every file gets its turn, one after the other.  A turn ends when the agent
/// added the key, or when the agent holds it already; the next file is then due
/// to be read, and the run is finished only where there is none.  Nothing else
/// finishes a run or goes on to another file, and what the run was started with
/// never changes.
pub proof fn every_file_gets_its_turn(state: RunView, reply: ReplyView)
    requires
        proper(state),
    ensures
        ({
            let next = after(state, reply);
            let turn_ends = (state.step == Step::AddKey && reply is Added) || is_skipped(
                state,
                reply,
            );
            &&& next.paths == state.paths
            &&& next.unlock == state.unlock
            &&& next.loaded == state.loaded
            &&& next.done == if turn_ends {
                state.done + 1
            } else {
                state.done
            }
            &&& turn_ends && next.done < state.paths.len() ==> next.step == Step::ReadFile
            &&& turn_ends && next.done >= state.paths.len() ==> next.step == Step::Finished
            &&& !turn_ends && state.step != Step::Finished ==> next.step != Step::Finished
            &&& !turn_ends && state.step != Step::ReadFile ==> next.step != Step::ReadFile
            &&& next.step == Step::Finished ==> next.done == next.paths.len()
        }),
{
}

/// The paths of the files that were read while a sequence of replies came in.
pub open spec fn read_paths(state: RunView, replies: Seq<ReplyView>) -> Seq<Seq<char>>
    decreases replies.len(),
{
    if replies.len() == 0 {
        Seq::empty()
    } else {
        let rest = read_paths(after(state, replies[0]), replies.drop_first());
        if state.step == Step::ReadFile && replies[0] is Content {
            seq![state.paths[state.done]] + rest
        } else {
            rest
        }
    }
}

/// The number of keys that the agent added while a sequence of replies came in.
pub open spec fn added_keys(state: RunView, replies: Seq<ReplyView>) -> nat
    decreases replies.len(),
{
    if replies.len() == 0 {
        0
    } else {
        let rest = added_keys(after(state, replies[0]), replies.drop_first());
        if state.step == Step::AddKey && replies[0] is Added {
            rest + 1
        } else {
            rest
        }
    }
}

/// The number of files that were skipped while a sequence of replies came in.
pub open spec fn skipped_files(state: RunView, replies: Seq<ReplyView>) -> nat
    decreases replies.len(),
{
    if replies.len() == 0 {
        0
    } else {
        let rest = skipped_files(after(state, replies[0]), replies.drop_first());
        if is_skipped(state, replies[0]) {
            rest + 1
        } else {
            rest
        }
    }
}

proof fn lemma_turns(state: RunView, replies: Seq<ReplyView>)
    requires
        proper(state),
        run(state, replies).step == Step::Finished,
    ensures
        read_paths(state, replies) == if state.step == Step::ReadFile {
            state.paths.skip(state.done)
        } else if state.step == Step::Finished {
            Seq::empty()
        } else {
            state.paths.skip(state.done + 1)
        },
        added_keys(state, replies) + skipped_files(state, replies) == state.paths.len()
            - state.done,
        state.loaded.len() == 0 || state.unlock == UnlockMode::Enroll ==> skipped_files(
            state,
            replies,
        ) == 0,
    decreases replies.len(),
{
    if replies.len() > 0 {
        let next = after(state, replies[0]);
        lemma_after(state, replies[0]);
        every_file_gets_its_turn(state, replies[0]);
        lemma_turns(next, replies.drop_first());
        if state.step == Step::ReadFile && replies[0] is Content {
            assert(seq![state.paths[state.done]] + state.paths.skip(state.done + 1)
                =~= state.paths.skip(state.done));
        }
        if next.step == Step::Finished {
            assert(state.paths.skip(next.paths.len() as int) =~= Seq::empty());
        }
    } else {
        assert(state.paths.skip(state.paths.len() as int) =~= Seq::empty());
    }
}

/// A run that finished has read every given file, once and in the given order,
/// and for each of them the agent added the key or held it already.  With an
/// agent that held no key, or with `--biometric`, every one of them was added.
pub proof fn a_finished_run_went_through_every_file(
    paths: Seq<Seq<char>>,
    unlock: UnlockMode,
    loaded: Seq<Seq<char>>,
    replies: Seq<ReplyView>,
)
    requires
        run(begun(paths, unlock, loaded), replies).step == Step::Finished,
    ensures
        read_paths(begun(paths, unlock, loaded), replies) == paths,
        added_keys(begun(paths, unlock, loaded), replies) + skipped_files(
            begun(paths, unlock, loaded),
            replies,
        ) == paths.len(),
        loaded.len() == 0 || unlock == UnlockMode::Enroll ==> added_keys(
            begun(paths, unlock, loaded),
            replies,
        ) == paths.len(),
{
    lemma_turns(begun(paths, unlock, loaded), replies);
    assert(paths.skip(0) =~= paths);
}

/// What makes each step due, and with which key, passphrase and text.  The vault
/// is asked to release only on the auto path and for an encrypted key; it is
/// asked to delete only what it released and what no longer decrypts the key; it
/// is asked to store only what was typed and decrypts the key.  A key is added
/// as it is where it has no passphrase, and decrypted otherwise.
pub proof fn every_step_has_its_cause(state: RunView, reply: ReplyView)
    requires
        proper(state),
        answers(state.step, reply),
    ensures
        ({
            let next = after(state, reply);
            match (state.step, reply) {
                (Step::ReadFile, ReplyView::Content(Err(failure))) => {
                    &&& next.step == Step::Failed
                    &&& next.failure == Some(CliErrorView::Unreadable(failure))
                },
                (Step::ReadFile, ReplyView::Content(Ok(pem))) => {
                    &&& next.step == Step::Failed <==> private_key_failure(pem) is Some
                    &&& next.step == Step::AddKey <==> private_key_failure(pem) is None
                        && !private_key_encrypted(pem) && !is_skipped(state, reply)
                    &&& next.step == Step::Retrieve <==> private_key_failure(pem) is None
                        && private_key_encrypted(pem) && state.unlock == UnlockMode::Auto
                        && !is_skipped(state, reply)
                    &&& next.step == Step::Prompt <==> private_key_failure(pem) is None
                        && private_key_encrypted(pem) && state.unlock != UnlockMode::Auto
                        && !is_skipped(state, reply)
                    &&& next.step == Step::AddKey || next.step == Step::Retrieve || next.step
                        == Step::Prompt ==> next.key == Some(pem)
                    &&& next.step == Step::AddKey ==> next.plain == Some(pem)
                    &&& private_key_failure(pem) matches Some(why) ==> next.failure == Some(
                        CliErrorView::InvalidConfig(
                            "cannot parse "@ + state.paths[state.done] + ": "@ + why,
                        ),
                    )
                },
                (Step::Retrieve, ReplyView::Retrieved(Err(_))) => next.step == Step::Prompt,
                (Step::Retrieve, ReplyView::Retrieved(Ok(passphrase))) => {
                    match private_key_decryption(state.key->0, passphrase) {
                        Ok(plain) => next.step == Step::AddKey && next.plain == Some(plain),
                        Err(_) => next.step == Step::Delete,
                    }
                },
                (Step::Delete, _) => next.step == Step::Prompt,
                (Step::Prompt, ReplyView::Typed(passphrase)) => {
                    match private_key_decryption(state.key->0, passphrase) {
                        Err(why) => {
                            &&& next.step == Step::Failed
                            &&& next.failure == Some(
                                CliErrorView::Signing("decrypt failed: "@ + why),
                            )
                        },
                        Ok(plain) => {
                            &&& next.plain == Some(plain)
                            &&& state.unlock == UnlockMode::Enroll ==> next.step == Step::Store
                                && next.passphrase == Some(passphrase)
                            &&& state.unlock != UnlockMode::Enroll ==> next.step == Step::AddKey
                        },
                    }
                },
                (Step::Store, _) => next.step == Step::AddKey && next.plain == state.plain,
                (_, _) => true,
            }
        }),
        ({
            let next = after(state, reply);
            &&& state.step != Step::ReadFile && next.done == state.done && next.step
                != Step::Failed ==> next.key == state.key
            &&& next.step != Step::Failed ==> next.failure is None
        }),
{
}

/// What is said on the way: one line when a key was added, skipped, enrolled,
/// could not be enrolled, or turned out stale, with the path of its file or the
/// error of the vault in it; and nothing otherwise.
pub proof fn every_notice_has_its_cause(state: RunView, reply: ReplyView)
    requires
        proper(state),
        answers(state.step, reply),
    ensures
        ({
            let next = after(state, reply);
            let path = state.paths[state.done];
            &&& state.step == Step::AddKey ==> next.notice == Some(
                LineView { stream: Stream::Stdout, text: "Identity added: "@ + path },
            )
            &&& is_skipped(state, reply) ==> next.notice == Some(
                LineView { stream: Stream::Stdout, text: "Identity already loaded: "@ + path },
            )
            &&& state.step == Step::Delete ==> next.notice == Some(
                LineView {
                    stream: Stream::Stderr,
                    text: "gitway-add: stored biometric passphrase no longer decrypts "@ + path
                        + " — removed stale enrollment"@,
                },
            )
            &&& (reply matches ReplyView::Stored(Ok(_))) ==> next.notice == Some(
                LineView {
                    stream: Stream::Stderr,
                    text: "gitway-add: enrolled "@ + path + " for biometric unlock"@,
                },
            )
            &&& (reply matches ReplyView::Stored(Err(error)) ==> next.notice == Some(
                LineView {
                    stream: Stream::Stderr,
                    text: "gitway-add: warning: biometric enrollment failed: "@ + error.message(),
                },
            ))
            &&& state.step != Step::AddKey && state.step != Step::Delete && state.step
                != Step::Store && !is_skipped(state, reply) ==> next.notice is None
        }),
{
}

/// The exit code of a run is success until the vault refuses an enrollment that
/// was asked for: a missing backend makes it "interactive input required", a
/// declined prompt "user declined", and nothing else changes it.
pub proof fn only_a_refused_enrollment_changes_the_exit_code(state: RunView, reply: ReplyView)
    requires
        proper(state),
    ensures
        ({
            let exit = after(state, reply).exit;
            if state.step != Step::Store {
                exit == state.exit
            } else {
                match reply {
                    ReplyView::Stored(Err(ErrorView::Unavailable(_))) => exit == 78,
                    ReplyView::Stored(Err(ErrorView::Cancelled)) => exit == 73,
                    _ => exit == state.exit,
                }
            }
        }),
        forall|paths: Seq<Seq<char>>, unlock: UnlockMode, loaded: Seq<Seq<char>>|
            (#[trigger] begun(paths, unlock, loaded)).exit == 0 && begun(
                paths,
                unlock,
                loaded,
            ).paths == paths && begun(paths, unlock, loaded).unlock == unlock && begun(
                paths,
                unlock,
                loaded,
            ).loaded == loaded && begun(paths, unlock, loaded).done == 0 && (begun(
                paths,
                unlock,
                loaded,
            ).step == Step::Finished <==> paths.len() == 0),
{
}

/// The vault is always spoken to under the identifier of the key in the current
/// file, and the agent is given exactly what the run holds for it.
pub proof fn requests_are_about_the_current_key(
    state: &Run,
    id: String,
    passphrase: &Secret,
    plain: &Secret,
    path: &str,
)
    requires
        call_ensures(Run::vault_id, (state,), Some(id)),
        call_ensures(Run::path, (state,), Some(path)),
    ensures
        state@.key matches Some(pem) && id@ == key_id_of(private_key_fingerprint(pem)),
        path@ == state@.paths[state@.done],
        call_ensures(Run::passphrase_to_store, (state,), Some(passphrase)) ==> state@.step
            == Step::Store && state@.passphrase == Some(passphrase@),
        call_ensures(Run::key_to_add, (state,), Some(plain)) ==> state@.step == Step::AddKey
            && state@.plain == Some(plain@),
{
}

/// The prompt names the file, and differs between files.
pub proof fn prompts_name_their_file(path: &str, other: &str, a: String, b: String)
    requires
        call_ensures(passphrase_prompt, (path,), a),
        call_ensures(passphrase_prompt, (other,), b),
    ensures
        a@ == "Enter passphrase for "@ + path@ + ": "@,
        a@.len() - path@.len() == b@.len() - other@.len(),
{
}

/// What is piped in is the passphrase up to the first newline, and nothing of it
/// is lost or changed.
pub proof fn piped_passphrases_are_first_lines(input: &str, r: Secret)
    requires
        call_ensures(passphrase_from_input, (input,), r),
    ensures
        r@.is_prefix_of(input@),
        !r@.contains('\n'),
        r@.len() < input@.len() ==> input@[r@.len() as int] == '\n',
{
    first_line_is_maximal(input@);
}

/// The agent holds a key exactly if one of the listed keys has its fingerprint:
/// the order of the list and what else is in it make no difference.
pub proof fn a_held_key_is_found_anywhere(
    some: Seq<Seq<char>>,
    others: Seq<Seq<char>>,
    key: Seq<char>,
    fingerprint: Seq<char>,
)
    ensures
        holds(some + others, fingerprint) <==> holds(some, fingerprint) || holds(
            others,
            fingerprint,
        ),
        holds(seq![key], fingerprint) <==> public_key_fingerprint(key, false) == fingerprint,
        !holds(Seq::empty(), fingerprint),
{
    let all = some + others;
    if holds(some, fingerprint) {
        let i = choose|i: int|
            0 <= i < some.len() && #[trigger] public_key_fingerprint(some[i], false) == fingerprint;
        assert(all[i] == some[i]);
    }
    if holds(others, fingerprint) {
        let i = choose|i: int|
            0 <= i < others.len() && #[trigger] public_key_fingerprint(others[i], false)
                == fingerprint;
        assert(all[some.len() + i] == others[i]);
    }
    if holds(all, fingerprint) {
        let i = choose|i: int|
            0 <= i < all.len() && #[trigger] public_key_fingerprint(all[i], false) == fingerprint;
        if i < some.len() {
            assert(all[i] == some[i]);
        } else {
            assert(all[i] == others[i - some.len()]);
        }
    }
    assert(seq![key][0] == key);
}

/// A run that is driven by calls is the run that its replies make; it ends with its
/// exit code, or with the error that ended it, and says what its last reply made it
/// say.
pub proof fn runs_follow_their_replies(
    paths: Vec<String>,
    unlock: UnlockMode,
    loaded: Vec<PublicKey>,
    start: Run,
    one: Reply,
    next: Run,
    two: Reply,
    last: Run,
)
    requires
        call_ensures(Run::start, (paths, unlock, loaded), start),
        call_ensures(Run::reply, (start, one), next),
        call_ensures(Run::reply, (next, two), last),
    ensures
        last@ == run(
            begun(texts(paths@), unlock, public_texts(loaded@)),
            seq![one@, two@],
        ),
        forall|code: u32| #[trigger]
            call_ensures(Run::result, (last,), Ok::<u32, CliError>(code)) ==> last@.failure is None
                && code == last@.exit,
        forall|error: CliError| #[trigger]
            call_ensures(Run::result, (last,), Err::<u32, CliError>(error)) ==> last@.failure
                == Some(error@),
        forall|line: &Line| #[trigger]
            call_ensures(Run::notice, (&last,), Some(line)) ==> last@.notice == Some(line@),
        call_ensures(Run::notice, (&last,), None::<&Line>) ==> last@.notice is None,
        forall|step: Step| #[trigger]
            call_ensures(Run::step, (&last,), step) ==> step == last@.step,
{
    let replies = seq![one@, two@];
    let rest = replies.drop_first();
    assert(rest[0] == two@);
    assert(rest.drop_first().len() == 0);
    assert(run(last@, rest.drop_first()) == last@);
    assert(run(next@, rest) == last@);
}

/// A reply is seen as it is: what was read, released, typed or stored, or why it was
/// not, and nothing else.
pub proof fn replies_are_seen_as_they_are(reply: Reply)
    ensures
        match reply {
            Reply::Content(Ok(text)) => reply@ == ReplyView::Content(Ok(text@)),
            Reply::Content(Err(failure)) => reply@ == ReplyView::Content(
                Err(ReadFailureView { missing: failure.missing, why: failure.why@ }),
            ),
            Reply::Retrieved(Ok(passphrase)) => reply@ == ReplyView::Retrieved(Ok(passphrase@)),
            Reply::Retrieved(Err(error)) => reply@ == ReplyView::Retrieved(Err(error@)),
            Reply::Deleted => reply@ is Deleted,
            Reply::Typed(passphrase) => reply@ == ReplyView::Typed(passphrase@),
            Reply::Stored(Ok(_)) => reply@ matches ReplyView::Stored(outcome) && outcome is Ok,
            Reply::Stored(Err(error)) => reply@ == ReplyView::Stored(Err(error@)),
            Reply::Added => reply@ is Added,
        },
{
}

} // verus!
