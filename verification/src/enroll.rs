//! `gitway biometric enroll`: storing the passphrases of key files behind a
//! biometric check.
//!
//! A [`Run`] says what is due for the current key file; the caller performs it
//! and hands the reply back, until all files are done.

use vstd::prelude::*;

use crate::args::texts;
use crate::biometric::{key_id, key_id_of, ErrorView, Result, Tier};
use crate::errors::{
    code_for, exit_for, CliError, CliErrorView, ReadFailureView, EXIT_GENERAL,
    EXIT_NEEDS_INTERACTIVE, EXIT_NOT_FOUND, EXIT_OK, EXIT_USAGE,
};
use crate::files::{content_text, key_in, read_key, Content, ContentView};
use crate::keys::{
    private_key_decryption, private_key_encrypted, private_key_failure, private_key_fingerprint,
    PrivateKey,
};
use crate::report::{
    batch_exit, emit_results, emit_unavailable, error_output, failed, outcomes_view, results_output,
    stderr, succeeded, DocumentView, Line, LineView, Outcome, OutcomeView, Output, OutputMode,
    OutputView, Stream,
};
use crate::secret::Secret;
use crate::text::join2;

verus! {

/// The name of the command.
pub const COMMAND: &'static str = "gitway biometric enroll";

/// Whether enrollment can begin.
#[derive(Debug)]
pub enum Gate {
    /// There is no backend: what is printed, and the exit code.
    Refused(Output, u32),
    /// Enrollment begins, after this notice where there is one.
    Open(Option<Line>),
}

/// A [`Gate`] with its texts.
pub enum GateView {
    Refused(OutputView, u32),
    Open(Option<LineView>),
}

impl View for Gate {
    type V = GateView;

    open spec fn view(&self) -> GateView {
        match self {
            Gate::Refused(output, code) => GateView::Refused(output@, *code),
            Gate::Open(Some(line)) => GateView::Open(Some(line@)),
            Gate::Open(None) => GateView::Open(None),
        }
    }
}

/// Enrollment needs a backend.  Where the backend is only advisory, a human is
/// told so before any passphrase is asked for.
pub open spec fn gate_of(available: bool, tier: Tier, mode: OutputMode) -> GateView {
    if !available {
        GateView::Refused(
            error_output(mode, COMMAND@, ErrorView::Unavailable(tier.guarantee())),
            EXIT_NEEDS_INTERACTIVE,
        )
    } else if tier == Tier::Advisory && mode == OutputMode::Human {
        GateView::Open(
            Some(
                LineView {
                    stream: Stream::Stderr,
                    text: "gitway: NOTE: "@ + Tier::Advisory.guarantee(),
                },
            ),
        )
    } else {
        GateView::Open(None)
    }
}

/// Decides whether enrollment can begin.
pub fn gate(available: bool, tier: Tier, mode: OutputMode) -> (r: Gate)
    ensures
        r@ == gate_of(available, tier, mode),
{
    if !available {
        let (output, code): (Output, u32) = emit_unavailable(tier, mode, COMMAND);
        return Gate::Refused(output, code);
    }
    if tier == Tier::Advisory && mode == OutputMode::Human {
        return Gate::Open(
            Some(stderr(join2("gitway: NOTE: ", Tier::Advisory.description()))),
        );
    }
    Gate::Open(None)
}

/// What is due for the current key file.
#[derive(Debug, Clone, Copy, PartialEq, Eq, Structural)]
pub enum Step {
    /// Read the file.
    ReadFile,
    /// Ask the user to type the passphrase; never unlock by biometrics here.
    Prompt,
    /// Store the passphrase in the vault.
    Store,
    /// All files are done.
    Finished,
    /// A file could not be read or the prompt failed, which ends the run.
    Aborted,
}

/// The reply to what was due.
pub enum Reply {
    /// The content of the file, or why it cannot be read.
    Content(Content),
    /// The passphrase that was typed.
    Typed(Secret),
    /// No passphrase could be read.
    PromptFailed,
    /// Whether the vault stored the passphrase.
    Stored(Result<()>),
}

/// A [`Reply`] with its texts.
pub enum ReplyView {
    Content(ContentView),
    Typed(Seq<char>),
    PromptFailed,
    Stored(core::result::Result<(), ErrorView>),
}

impl View for Reply {
    type V = ReplyView;

    open spec fn view(&self) -> ReplyView {
        match self {
            Reply::Content(content) => ReplyView::Content(content_text(*content)),
            Reply::Typed(passphrase) => ReplyView::Typed(passphrase@),
            Reply::PromptFailed => ReplyView::PromptFailed,
            Reply::Stored(outcome) => ReplyView::Stored(
                match *outcome {
                    Ok(_) => Ok(()),
                    Err(error) => Err(error@),
                },
            ),
        }
    }
}

/// An enrollment run under way.
pub struct Run {
    paths: Vec<String>,
    step: Step,
    /// The key of the current file, once it was read.
    key: Option<PrivateKey>,
    /// The passphrase of that key, once it was typed and checked.
    passphrase: Option<Secret>,
    results: Vec<Outcome>,
    exit: u32,
    /// Why a file could not be read.
    failure: Option<CliError>,
}

/// A [`Run`] with its texts.  The current file is the one behind those that have
/// a result.
pub struct RunView {
    pub paths: Seq<Seq<char>>,
    pub step: Step,
    pub key: Option<Seq<char>>,
    pub passphrase: Option<Seq<char>>,
    pub results: Seq<OutcomeView>,
    pub exit: u32,
    pub failure: Option<CliErrorView>,
}

impl View for Run {
    type V = RunView;

    closed spec fn view(&self) -> RunView {
        RunView {
            paths: texts(self.paths@),
            step: self.step,
            key: match self.key {
                Some(key) => Some(key@),
                None => None,
            },
            passphrase: match self.passphrase {
                Some(passphrase) => Some(passphrase@),
                None => None,
            },
            results: outcomes_view(self.results@),
            exit: self.exit,
            failure: match self.failure {
                Some(error) => Some(error@),
                None => None,
            },
        }
    }
}

impl RunView {
    /// The path of the current file.
    pub open spec fn path(self) -> Seq<char> {
        self.paths[self.results.len() as int]
    }
}

/// A run at its beginning.
pub open spec fn begun(paths: Seq<Seq<char>>) -> RunView {
    RunView {
        paths,
        step: if paths.len() == 0 {
            Step::Finished
        } else {
            Step::ReadFile
        },
        key: None,
        passphrase: None,
        results: Seq::empty(),
        exit: EXIT_OK,
        failure: None,
    }
}

/// A run after the current file got its result.
pub open spec fn recorded(run: RunView, outcome: OutcomeView) -> RunView {
    let results = run.results.push(outcome);
    RunView {
        paths: run.paths,
        step: if results.len() < run.paths.len() {
            Step::ReadFile
        } else {
            Step::Finished
        },
        key: None,
        passphrase: None,
        results,
        exit: if outcome.ok {
            run.exit
        } else {
            outcome.exit_code
        },
        failure: run.failure,
    }
}

/// A run that ends early, without a result for the current file.
pub open spec fn aborted(run: RunView, failure: Option<CliErrorView>) -> RunView {
    RunView { step: Step::Aborted, key: None, passphrase: None, failure, ..run }
}

/// A run after the file was read, if it could be: a failure to read it ends the
/// run.
pub open spec fn after_reading(run: RunView, content: ContentView) -> RunView {
    match content {
        Err(failure) => aborted(run, Some(CliErrorView::Unreadable(failure))),
        Ok(pem) => after_content(run, pem),
    }
}

/// A run after the content of the file is known: only an encrypted key can be
/// enrolled.
pub open spec fn after_content(run: RunView, pem: Seq<char>) -> RunView {
    match key_in(run.path(), Ok(pem)) {
        Err(message) => recorded(run, failed(run.path(), message, EXIT_USAGE)),
        Ok(pem) => if private_key_encrypted(pem) {
            RunView { step: Step::Prompt, key: Some(pem), ..run }
        } else {
            recorded(
                run,
                failed(
                    run.path(),
                    "key is not passphrase-protected; biometric unlock only applies to encrypted keys"@,
                    EXIT_USAGE,
                ),
            )
        },
    }
}

/// A run after the passphrase was typed: it is stored only if it decrypts the
/// key.
pub open spec fn after_typed(run: RunView, pem: Seq<char>, passphrase: Seq<char>) -> RunView {
    if private_key_decryption(pem, passphrase) is Ok {
        RunView { step: Step::Store, passphrase: Some(passphrase), ..run }
    } else {
        recorded(
            run,
            failed(
                run.path(),
                "passphrase did not decrypt the key; nothing was stored"@,
                EXIT_USAGE,
            ),
        )
    }
}

/// A run after the vault was asked to store the passphrase.
pub open spec fn after_stored(
    run: RunView,
    pem: Seq<char>,
    outcome: core::result::Result<(), ErrorView>,
) -> RunView {
    match outcome {
        Ok(_) => recorded(run, succeeded(run.path(), private_key_fingerprint(pem))),
        Err(error) => recorded(run, failed(run.path(), error.message(), code_for(error))),
    }
}

/// A run after a reply.  A reply that does not answer what is due changes
/// nothing.
pub open spec fn after(run: RunView, reply: ReplyView) -> RunView {
    match (run.step, reply, run.key) {
        (Step::ReadFile, ReplyView::Content(content), _) => after_reading(run, content),
        (Step::Prompt, ReplyView::Typed(passphrase), Some(pem)) => after_typed(
            run,
            pem,
            passphrase,
        ),
        (Step::Prompt, ReplyView::PromptFailed, _) => aborted(run, None),
        (Step::Store, ReplyView::Stored(outcome), Some(pem)) => after_stored(run, pem, outcome),
        (_, _, _) => run,
    }
}

/// What holds of a run at any time.  Above all, a passphrase that is about to be
/// stored decrypts its key, the results so far belong to the first files in
/// their order, and the exit code is that of their last failure.
pub open spec fn proper(run: RunView) -> bool {
    &&& run.results.len() <= run.paths.len()
    &&& forall|i: int|
        0 <= i < run.results.len() ==> (#[trigger] run.results[i]).target == run.paths[i]
    &&& run.exit == batch_exit(run.results)
    &&& run.failure is Some ==> run.step == Step::Aborted
    &&& match run.step {
        Step::ReadFile => run.key is None && run.passphrase is None && run.results.len()
            < run.paths.len(),
        Step::Prompt => {
            &&& run.key matches Some(pem)
            &&& private_key_encrypted(pem)
            &&& run.passphrase is None
            &&& run.results.len() < run.paths.len()
        },
        Step::Store => {
            &&& run.key matches Some(pem)
            &&& private_key_encrypted(pem)
            &&& run.passphrase matches Some(passphrase)
            &&& private_key_decryption(pem, passphrase) is Ok
            &&& run.results.len() < run.paths.len()
        },
        Step::Finished => run.key is None && run.passphrase is None && run.results.len()
            == run.paths.len(),
        Step::Aborted => run.key is None && run.passphrase is None && run.results.len()
            < run.paths.len(),
    }
}

proof fn lemma_recorded(run: RunView, outcome: OutcomeView)
    requires
        proper(run),
        run.step != Step::Aborted,
        run.results.len() < run.paths.len(),
        outcome.target == run.path(),
    ensures
        proper(recorded(run, outcome)),
{
    let next = recorded(run, outcome);
    assert(next.results.drop_last() =~= run.results);
}

proof fn lemma_after(run: RunView, reply: ReplyView)
    requires
        proper(run),
    ensures
        proper(after(run, reply)),
{
    match (run.step, reply, run.key) {
        (Step::ReadFile, ReplyView::Content(Ok(pem)), _) => {
            match key_in(run.path(), Ok(pem)) {
                Err(message) => {
                    lemma_recorded(run, failed(run.path(), message, EXIT_USAGE));
                },
                Ok(pem) => {
                    lemma_recorded(
                        run,
                        failed(
                            run.path(),
                            "key is not passphrase-protected; biometric unlock only applies to encrypted keys"@,
                            EXIT_USAGE,
                        ),
                    );
                },
            }
        },
        (Step::Prompt, ReplyView::Typed(_), Some(_)) => {
            lemma_recorded(
                run,
                failed(
                    run.path(),
                    "passphrase did not decrypt the key; nothing was stored"@,
                    EXIT_USAGE,
                ),
            );
        },
        (Step::Store, ReplyView::Stored(outcome), Some(pem)) => {
            match outcome {
                Ok(_) => {
                    lemma_recorded(run, succeeded(run.path(), private_key_fingerprint(pem)));
                },
                Err(error) => {
                    lemma_recorded(run, failed(run.path(), error.message(), code_for(error)));
                },
            }
        },
        (_, _, _) => {},
    }
}

impl Run {
    #[verifier::type_invariant]
    spec fn is_proper(self) -> bool {
        proper(self@)
    }

    /// Begins a run over the given key files.
    pub fn start(paths: Vec<String>) -> (r: Run)
        ensures
            r@ == begun(texts(paths@)),
    {
        let step: Step = if paths.is_empty() {
            Step::Finished
        } else {
            Step::ReadFile
        };
        let results: Vec<Outcome> = Vec::new();
        assert(outcomes_view(results@) =~= Seq::empty());
        assert(texts(paths@).len() == paths@.len());
        Run { paths, step, key: None, passphrase: None, results, exit: EXIT_OK, failure: None }
    }

    /// What is due.
    pub fn step(&self) -> (r: Step)
        ensures
            r == self@.step,
    {
        self.step
    }

    /// The path of the current file, unless all files are done.
    pub fn path(&self) -> (r: Option<&str>)
        ensures
            match r {
                Some(path) => self@.step != Step::Finished && path@ == self@.path(),
                None => self@.step == Step::Finished,
            },
    {
        proof {
            use_type_invariant(self);
        }
        assert(texts(self.paths@).len() == self.paths@.len());
        assert(outcomes_view(self.results@).len() == self.results@.len());
        if self.step == Step::Finished {
            None
        } else {
            Some(self.paths[self.results.len()].as_str())
        }
    }

    /// The identifier and the passphrase that the vault is asked to store, when
    /// that is what is due.
    pub fn store_request(&self) -> (r: Option<(String, &Secret)>)
        ensures
            match r {
                Some((id, passphrase)) => {
                    &&& self@.step == Step::Store
                    &&& self@.key matches Some(pem)
                    &&& id@ == key_id_of(private_key_fingerprint(pem))
                    &&& self@.passphrase == Some(passphrase@)
                },
                None => self@.step != Step::Store,
            },
    {
        proof {
            use_type_invariant(self);
        }
        if self.step != Step::Store {
            return None;
        }
        match (&self.key, &self.passphrase) {
            (Some(key), Some(passphrase)) => Some((key_id(key), passphrase)),
            _ => None,
        }
    }

    /// Records the result of the current file.
    fn record(self, outcome: Outcome) -> (r: Run)
        requires
            self@.step != Step::Aborted,
            self@.results.len() < self@.paths.len(),
            outcome@.target == self@.path(),
        ensures
            r@ == recorded(self@, outcome@),
    {
        proof {
            use_type_invariant(&self);
            lemma_recorded(self@, outcome@);
        }
        let ghost before = self@;
        let ghost view = outcome@;
        let paths: Vec<String> = self.paths;
        let mut results: Vec<Outcome> = self.results;
        let exit: u32 = if outcome.ok {
            self.exit
        } else {
            outcome.exit_code
        };
        results.push(outcome);
        assert(outcomes_view(results@) =~= before.results.push(view));
        assert(texts(paths@).len() == paths@.len());
        let step: Step = if results.len() < paths.len() {
            Step::ReadFile
        } else {
            Step::Finished
        };
        Run { paths, step, key: None, passphrase: None, results, exit, failure: self.failure }
    }

    /// Ends the run early.
    fn abort(self, failure: Option<CliError>) -> (r: Run)
        requires
            self@.step == Step::ReadFile || self@.step == Step::Prompt,
        ensures
            r@ == aborted(
                self@,
                (match failure {
                    Some(error) => Some(error@),
                    None => None,
                }),
            ),
    {
        proof {
            use_type_invariant(&self);
        }
        Run { step: Step::Aborted, key: None, passphrase: None, failure, ..self }
    }

    /// Takes the content of the current file.
    fn take_content(self, pem: String) -> (r: Run)
        requires
            self@.step == Step::ReadFile,
        ensures
            r@ == after_content(self@, pem@),
    {
        proof {
            use_type_invariant(&self);
        }
        assert(texts(self.paths@).len() == self.paths@.len());
        assert(outcomes_view(self.results@).len() == self.results@.len());
        let path: String = self.paths[self.results.len()].clone();
        match read_key(path.as_str(), Ok(pem)) {
            Err(message) => self.record(Outcome::failed(path, message, EXIT_USAGE)),
            Ok(key) => if key.is_encrypted() {
                Run { step: Step::Prompt, key: Some(key), ..self }
            } else {
                self.record(
                    Outcome::failed(
                        path,
                        "key is not passphrase-protected; biometric unlock only applies to encrypted keys".to_owned(),
                        EXIT_USAGE,
                    ),
                )
            },
        }
    }

    /// Takes the passphrase that was typed.
    fn take_typed(self, passphrase: Secret) -> (r: Run)
        requires
            self@.step == Step::Prompt,
        ensures
            r@ == after(self@, ReplyView::Typed(passphrase@)),
    {
        proof {
            use_type_invariant(&self);
        }
        assert(texts(self.paths@).len() == self.paths@.len());
        assert(outcomes_view(self.results@).len() == self.results@.len());
        let decrypts: bool = match &self.key {
            Some(key) => key.decrypt(&passphrase).is_ok(),
            None => false,
        };
        if decrypts {
            Run { step: Step::Store, passphrase: Some(passphrase), ..self }
        } else {
            let path: String = self.paths[self.results.len()].clone();
            self.record(
                Outcome::failed(
                    path,
                    "passphrase did not decrypt the key; nothing was stored".to_owned(),
                    EXIT_USAGE,
                ),
            )
        }
    }

    /// Takes the answer of the vault.
    fn take_stored(self, outcome: Result<()>) -> (r: Run)
        requires
            self@.step == Step::Store,
        ensures
            r@ == after(self@, Reply::Stored(outcome)@),
    {
        proof {
            use_type_invariant(&self);
        }
        assert(texts(self.paths@).len() == self.paths@.len());
        assert(outcomes_view(self.results@).len() == self.results@.len());
        let path: String = self.paths[self.results.len()].clone();
        match outcome {
            Ok(_) => {
                let fingerprint: String = match &self.key {
                    Some(key) => key.fingerprint(),
                    None => String::new(),
                };
                self.record(Outcome::ok(path, fingerprint))
            },
            Err(error) => {
                let code: u32 = exit_for(&error);
                self.record(Outcome::failed(path, error.to_string(), code))
            },
        }
    }

    /// Takes the reply to what was due.  A reply that does not answer it is
    /// ignored.
    pub fn reply(self, reply: Reply) -> (r: Run)
        ensures
            r@ == after(self@, reply@),
    {
        proof {
            use_type_invariant(&self);
        }
        match reply {
            Reply::Content(content) => if self.step == Step::ReadFile {
                match content {
                    Ok(pem) => self.take_content(pem),
                    Err(failure) => self.abort(Some(CliError::Unreadable(failure))),
                }
            } else {
                self
            },
            Reply::Typed(passphrase) => if self.step == Step::Prompt {
                self.take_typed(passphrase)
            } else {
                self
            },
            Reply::PromptFailed => if self.step == Step::Prompt {
                self.abort(None)
            } else {
                self
            },
            Reply::Stored(outcome) => if self.step == Step::Store {
                self.take_stored(outcome)
            } else {
                self
            },
        }
    }

    /// The error of a run that ended because a file could not be read.
    pub fn failure(self) -> (r: Option<CliError>)
        ensures
            (match r {
                Some(error) => Some(error@),
                None => None,
            }) == self@.failure,
    {
        self.failure
    }

    /// What is printed for the results so far, and the exit code.
    pub fn report(&self, mode: OutputMode) -> (r: (Output, u32))
        ensures
            r.0@ == results_output(mode, COMMAND@, self@.results, "enrolled"@),
            r.1 == self@.exit,
    {
        (emit_results(mode, COMMAND, &self.results, "enrolled"), self.exit)
    }
}

/// A run after a sequence of replies.
pub open spec fn run(state: RunView, replies: Seq<ReplyView>) -> RunView
    decreases replies.len(),
{
    if replies.len() == 0 {
        state
    } else {
        run(after(state, replies[0]), replies.drop_first())
    }
}

/// Whatever the replies: a passphrase is handed to the vault only if it decrypts
/// the key it belongs to, each file gets its one result in turn, and the exit
/// code is that of the last failure.
pub proof fn enrollment_stores_only_working_passphrases(
    paths: Seq<Seq<char>>,
    replies: Seq<ReplyView>,
)
    ensures
        proper(run(begun(paths), replies)),
        run(begun(paths), replies).paths == paths,
{
    lemma_run(begun(paths), replies);
}

proof fn lemma_run(state: RunView, replies: Seq<ReplyView>)
    requires
        proper(state),
    ensures
        proper(run(state, replies)),
        run(state, replies).paths == state.paths,
    decreases replies.len(),
{
    if replies.len() > 0 {
        lemma_after(state, replies[0]);
        lemma_run(after(state, replies[0]), replies.drop_first());
    }
}

/// A key that is not encrypted, a wrong passphrase or an error of the keystore
/// does not keep the next key from being tried: only a file that cannot be read
/// and a failed prompt end a run early.
pub proof fn one_failure_does_not_stop_the_batch(state: RunView, reply: ReplyView)
    requires
        proper(state),
        state.step != Step::Aborted,
        after(state, reply).step == Step::Aborted,
    ensures
        (state.step == Step::Prompt && reply is PromptFailed) || (state.step == Step::ReadFile
            && (reply matches ReplyView::Content(content) && content is Err)),
{
}

/// A key file that cannot be read ends the run with an error and without a
/// result for that file: nothing is asked of the user or of the vault.  The exit
/// code means "not found" where the file is missing, and a general error
/// otherwise.
pub proof fn unreadable_files_end_the_run(state: RunView, failure: ReadFailureView)
    requires
        proper(state),
        state.step == Step::ReadFile,
    ensures
        ({
            let next = after(state, ReplyView::Content(Err(failure)));
            &&& next.step == Step::Aborted
            &&& next.results == state.results
            &&& next.failure == Some(CliErrorView::Unreadable(failure))
            &&& CliErrorView::Unreadable(failure).code() == (if failure.missing {
                EXIT_NOT_FOUND
            } else {
                EXIT_GENERAL
            })
        }),
        forall|reply: ReplyView|
            #[trigger] after(after(state, ReplyView::Content(Err(failure))), reply) == after(
                state,
                ReplyView::Content(Err(failure)),
            ),
{
}

/// A passphrase that does not decrypt the key is reported as a usage error, and
/// nothing is stored.
pub proof fn a_wrong_passphrase_is_a_usage_error(state: RunView, passphrase: Seq<char>)
    requires
        proper(state),
        state.step == Step::Prompt,
        state.key matches Some(pem) && private_key_decryption(pem, passphrase) is Err,
    ensures
        after(state, ReplyView::Typed(passphrase)).exit == EXIT_USAGE,
        after(state, ReplyView::Typed(passphrase)).step != Step::Store,
{
}

/// Without a backend nothing is enrolled, and the exit code says that
/// interactive input was required but is unavailable.
pub proof fn enrollment_needs_a_backend(tier: Tier, mode: OutputMode)
    ensures
        gate_of(false, tier, mode) matches GateView::Refused(_, code) && code
            == EXIT_NEEDS_INTERACTIVE,
{
}

/// A human is told, before any passphrase is typed, that the backend is no
/// security boundary, exactly if it is an advisory one.
pub proof fn advisory_enrollment_is_disclosed(tier: Tier, mode: OutputMode)
    ensures
        gate_of(true, tier, mode) == GateView::Open(
            if tier == Tier::Advisory && mode == OutputMode::Human {
                Some(
                    LineView { stream: Stream::Stderr, text: "gitway: NOTE: "@ + tier.guarantee() },
                )
            } else {
                None
            },
        ),
{
}

/// Whether a reply answers what is due.
pub open spec fn answers(step: Step, reply: ReplyView) -> bool {
    match step {
        Step::ReadFile => reply is Content,
        Step::Prompt => reply is Typed || reply is PromptFailed,
        Step::Store => reply is Stored,
        Step::Finished => false,
        Step::Aborted => false,
    }
}

/// Whether every one of a sequence of replies answers what is due when it comes.
pub open spec fn all_answer(state: RunView, replies: Seq<ReplyView>) -> bool
    decreases replies.len(),
{
    replies.len() > 0 ==> answers(state.step, replies[0]) && all_answer(
        after(state, replies[0]),
        replies.drop_first(),
    )
}

/// The most replies that a run can still take.
spec fn remaining(run: RunView) -> int {
    let later = (run.paths.len() - run.results.len() - 1) * 3;
    match run.step {
        Step::ReadFile => later + 3,
        Step::Prompt => later + 2,
        Step::Store => later + 1,
        Step::Finished => 0,
        Step::Aborted => 0,
    }
}

proof fn lemma_remaining(state: RunView, replies: Seq<ReplyView>)
    requires
        proper(state),
        all_answer(state, replies),
    ensures
        replies.len() <= remaining(state),
    decreases replies.len(),
{
    if replies.len() > 0 {
        let next = after(state, replies[0]);
        lemma_after(state, replies[0]);
        lemma_remaining(next, replies.drop_first());
        assert(remaining(next) < remaining(state));
    } else {
        assert(remaining(state) >= 0);
    }
}

/// A run never goes on for good: over any number of files, and whatever the
/// answers are, it takes at most three of them per file.
pub proof fn every_run_ends(paths: Seq<Seq<char>>, replies: Seq<ReplyView>)
    requires
        all_answer(begun(paths), replies),
    ensures
        replies.len() <= 3 * paths.len(),
{
    lemma_remaining(begun(paths), replies);
}

/// A reply that does not answer what is due, and any reply to a run that is over,
/// changes nothing.
pub proof fn only_answers_change_a_run(state: RunView, reply: ReplyView)
    requires
        proper(state),
        !answers(state.step, reply),
    ensures
        after(state, reply) == state,
{
}

/// A key is reported as enrolled exactly if the vault was asked to store its
/// passphrase and said that it did; the report names the file and the
/// fingerprint of the key.
pub proof fn enrolled_means_stored(state: RunView, reply: ReplyView)
    requires
        proper(state),
    ensures
        ({
            let next = after(state, reply);
            let grew = next.results.len() == state.results.len() + 1;
            &&& grew && next.results.last().ok <==> state.step == Step::Store && (
            reply matches ReplyView::Stored(outcome) && outcome is Ok)
            &&& grew && next.results.last().ok ==> {
                &&& next.results.last().target == state.paths[state.results.len() as int]
                &&& next.results.last().fingerprint == Some(private_key_fingerprint(state.key->0))
                &&& next.results.last().message.len() == 0
                &&& next.results.last().exit_code == 0
            }
        }),
{
}

/// A file gets a failure as its result exactly if it holds no key or one without
/// a passphrase, if the passphrase that was typed does not decrypt the key, or if
/// the vault did not store it.  The first three are usage errors; the fourth has
/// the code and the message of the vault's error.
pub proof fn failures_have_their_cause(state: RunView, reply: ReplyView)
    requires
        proper(state),
    ensures
        ({
            let next = after(state, reply);
            let path = state.paths[state.results.len() as int];
            let failure = next.results.last();
            let failed = next.results.len() == state.results.len() + 1 && !failure.ok;
            &&& failed ==> failure.target == path && failure.fingerprint is None
            &&& match (state.step, reply) {
                (Step::ReadFile, ReplyView::Content(Ok(pem))) => {
                    &&& failed <==> private_key_failure(pem) is Some || !private_key_encrypted(pem)
                    &&& failed ==> failure.exit_code == 2
                    &&& private_key_failure(pem) matches Some(why) ==> failure.message
                        == "cannot parse "@ + path + ": "@ + why
                    &&& failed && private_key_failure(pem) is None ==> failure.message
                        == "key is not passphrase-protected; biometric unlock only applies to encrypted keys"@
                },
                (Step::Prompt, ReplyView::Typed(passphrase)) => {
                    &&& failed <==> private_key_decryption(state.key->0, passphrase) is Err
                    &&& failed ==> failure.exit_code == 2 && failure.message
                        == "passphrase did not decrypt the key; nothing was stored"@
                },
                (Step::Store, ReplyView::Stored(Err(error))) => failed && failure.exit_code
                    == code_for(error) && failure.message == error.message(),
                (_, _) => !failed,
            }
        }),
{
}

/// The results of the earlier files never change, each reply adds at most one, and
/// with each of them the next file is due to be read, until there is none.  The
/// exit code is that of the failure that came last.
pub proof fn results_come_one_by_one(state: RunView, reply: ReplyView)
    requires
        proper(state),
    ensures
        ({
            let next = after(state, reply);
            let grew = next.results.len() == state.results.len() + 1;
            &&& next.paths == state.paths
            &&& grew || next.results == state.results
            &&& state.results.is_prefix_of(next.results)
            &&& grew ==> next.step == if next.results.len() < state.paths.len() {
                Step::ReadFile
            } else {
                Step::Finished
            }
            &&& !grew && state.step != Step::ReadFile ==> next.step != Step::ReadFile
            &&& !grew && state.step != Step::Finished ==> next.step != Step::Finished
            &&& next.exit == if grew && !next.results.last().ok {
                next.results.last().exit_code
            } else {
                state.exit
            }
        }),
{
    let next = after(state, reply);
    if next.results.len() == state.results.len() + 1 {
        assert(state.results =~= next.results.subrange(0, state.results.len() as int));
    } else {
        assert(next.results == state.results);
        assert(state.results =~= next.results.subrange(0, state.results.len() as int));
    }
}

/// An encrypted key that was read always leads to the prompt, and a passphrase
/// that was typed and decrypts the key always to the vault, whatever became of
/// the earlier files; nothing else leads there.
pub proof fn every_key_is_prompted_for(state: RunView, reply: ReplyView)
    requires
        proper(state),
    ensures
        ({
            let next = after(state, reply);
            &&& state.step != Step::Prompt ==> (next.step == Step::Prompt <==> state.step
                == Step::ReadFile && (reply matches ReplyView::Content(Ok(pem))
                && private_key_failure(pem) is None && private_key_encrypted(pem) && next.key
                == Some(pem)))
            &&& state.step == Step::ReadFile ==> (reply matches ReplyView::Content(Ok(pem)) ==> (
            private_key_failure(pem) is None && private_key_encrypted(pem) ==> next.step
                == Step::Prompt && next.key == Some(pem)))
            &&& state.step != Step::Store ==> (next.step == Step::Store ==> state.step
                == Step::Prompt && (reply matches ReplyView::Typed(passphrase) && next.passphrase
                == Some(passphrase) && next.key == state.key))
            &&& state.step == Step::Prompt ==> (reply matches ReplyView::Typed(passphrase) ==> (
            private_key_decryption(state.key->0, passphrase) is Ok ==> next.step == Step::Store
                && next.passphrase == Some(passphrase) && next.key == state.key))
            &&& state.step == Step::Prompt && reply is PromptFailed ==> next.step == Step::Aborted
                && next.failure is None
        }),
{
}

/// The number of passphrases that the vault stored while a sequence of replies
/// came in.
pub open spec fn stored_passphrases(state: RunView, replies: Seq<ReplyView>) -> nat
    decreases replies.len(),
{
    if replies.len() == 0 {
        0
    } else {
        let rest = stored_passphrases(after(state, replies[0]), replies.drop_first());
        if state.step == Step::Store && (replies[0] matches ReplyView::Stored(outcome)
            && outcome is Ok) {
            rest + 1
        } else {
            rest
        }
    }
}

/// The number of results that report a success.
pub open spec fn successes(results: Seq<OutcomeView>) -> nat
    decreases results.len(),
{
    if results.len() == 0 {
        0
    } else {
        successes(results.drop_last()) + if results.last().ok {
            1nat
        } else {
            0
        }
    }
}

proof fn lemma_successes(state: RunView, replies: Seq<ReplyView>)
    requires
        proper(state),
    ensures
        successes(run(state, replies).results) == successes(state.results) + stored_passphrases(
            state,
            replies,
        ),
    decreases replies.len(),
{
    if replies.len() > 0 {
        let next = after(state, replies[0]);
        lemma_after(state, replies[0]);
        lemma_successes(next, replies.drop_first());
        enrolled_means_stored(state, replies[0]);
        results_come_one_by_one(state, replies[0]);
        if next.results.len() == state.results.len() + 1 {
            assert(next.results.drop_last() =~= state.results);
        }
    }
}

/// In a whole run as many keys are reported as enrolled as passphrases were
/// stored, and a finished run has a result for each of the given files, in their
/// order.
pub proof fn as_many_are_enrolled_as_were_stored(
    paths: Seq<Seq<char>>,
    replies: Seq<ReplyView>,
)
    ensures
        ({
            let end = run(begun(paths), replies);
            &&& successes(end.results) == stored_passphrases(begun(paths), replies)
            &&& end.step == Step::Finished ==> end.results.len() == paths.len()
            &&& forall|i: int|
                0 <= i < end.results.len() ==> (#[trigger] end.results[i]).target == paths[i]
        }),
        begun(paths).step == (if paths.len() == 0 {
            Step::Finished
        } else {
            Step::ReadFile
        }),
        begun(paths).exit == 0,
{
    lemma_run(begun(paths), replies);
    lemma_successes(begun(paths), replies);
}

/// The vault is asked to store the typed passphrase under the identifier of the
/// key in the current file.
pub proof fn requests_are_about_the_current_key(
    state: &Run,
    id: String,
    passphrase: &Secret,
    path: &str,
)
    requires
        call_ensures(Run::store_request, (state,), Some((id, passphrase))),
        call_ensures(Run::path, (state,), Some(path)),
    ensures
        state@.key matches Some(pem) && id@ == key_id_of(private_key_fingerprint(pem)),
        state@.passphrase == Some(passphrase@),
        path@ == state@.paths[state@.results.len() as int],
{
}

/// The report of a run shows its results, one by one and in their order, and its
/// exit code: an enrolled key is reported as enrolled, and a failure by its message.
pub proof fn the_report_shows_every_result(state: &Run, mode: OutputMode, r: (Output, u32))
    requires
        call_ensures(Run::report, (state, mode), r),
    ensures
        r.1 == state@.exit,
        match r.0@ {
            OutputView::Lines(lines) => {
                &&& mode == OutputMode::Human
                &&& lines.len() == state@.results.len()
                &&& forall|i: int|
                    0 <= i < lines.len() ==> (#[trigger] lines[i]).text == if state@.results[i].ok {
                        "gitway: "@ + "enrolled"@ + " "@ + state@.results[i].target
                    } else {
                        "gitway: "@ + state@.results[i].target + ": "@ + state@.results[i].message
                    }
            },
            OutputView::Json { command, document } => {
                &&& mode == OutputMode::Json
                &&& command == "gitway biometric enroll"@
                &&& document matches DocumentView::Results { rows }
                &&& rows.len() == state@.results.len()
                &&& forall|i: int|
                    0 <= i < rows.len() ==> (#[trigger] rows[i]).message
                        == if state@.results[i].ok {
                        "enrolled"@
                    } else {
                        state@.results[i].message
                    }
            },
        },
{
}

/// A run that is driven by calls is the run that its replies make.
pub proof fn runs_follow_their_replies(
    paths: Vec<String>,
    start: Run,
    one: Reply,
    next: Run,
    two: Reply,
    last: Run,
)
    requires
        call_ensures(Run::start, (paths,), start),
        call_ensures(Run::reply, (start, one), next),
        call_ensures(Run::reply, (next, two), last),
    ensures
        last@ == run(begun(texts(paths@)), seq![one@, two@]),
        forall|error: CliError| #[trigger]
            call_ensures(Run::failure, (last,), Some(error)) ==> last@.failure == Some(error@),
        call_ensures(Run::failure, (last,), None::<CliError>) ==> last@.failure is None,
        forall|step: Step| #[trigger]
            call_ensures(Run::step, (&last,), step) ==> step == last@.step,
{
    let replies = seq![one@, two@];
    let rest = replies.drop_first();
    assert(rest[0] == two@);
    assert(rest.drop_first().len() == 0);
    assert(run(last@, rest.drop_first()) == last@);
    assert(run(next@, rest) == last@);
}

/// Without a backend the refusal is the error that there is none, with the
/// guarantee of the tier as the reason.
pub proof fn refusals_say_why(tier: Tier, mode: OutputMode)
    ensures
        gate_of(false, tier, mode) matches GateView::Refused(output, code) && code == 78 && output
            == error_output(
            mode,
            "gitway biometric enroll"@,
            ErrorView::Unavailable(tier.guarantee()),
        ),
{
}

/// A reply is seen as it is: what was read, typed or stored, or why it was not, and
/// nothing else.
pub proof fn replies_are_seen_as_they_are(reply: Reply)
    ensures
        match reply {
            Reply::Content(Ok(text)) => reply@ == ReplyView::Content(Ok(text@)),
            Reply::Content(Err(failure)) => reply@ == ReplyView::Content(
                Err(ReadFailureView { missing: failure.missing, why: failure.why@ }),
            ),
            Reply::Typed(passphrase) => reply@ == ReplyView::Typed(passphrase@),
            Reply::PromptFailed => reply@ is PromptFailed,
            Reply::Stored(Ok(_)) => reply@ matches ReplyView::Stored(outcome) && outcome is Ok,
            Reply::Stored(Err(error)) => reply@ == ReplyView::Stored(Err(error@)),
        },
{
}

/// A decision to begin is seen as it is.
pub proof fn gates_are_seen_as_they_are(gate: Gate)
    ensures
        match gate {
            Gate::Refused(output, code) => gate@ == GateView::Refused(output@, code),
            Gate::Open(Some(line)) => gate@ == GateView::Open(Some(line@)),
            Gate::Open(None) => gate@ matches GateView::Open(notice) && notice is None,
        },
{
}

} // verus!
