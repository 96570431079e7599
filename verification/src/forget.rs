//! `gitway biometric forget`: removing enrollments, of given key files or all.
//!
//! A [`Run`] says what is due; the caller performs it and hands the reply back,
//! until everything is done.

use vstd::prelude::*;

use crate::args::texts;
use crate::biometric::{
    fingerprint_in, fingerprint_of, fingerprint_of_key_id, key_id, key_id_from_fingerprint,
    key_id_of, keys_view, BiometricError, EnrolledKey, EnrolledKeyView, ErrorView, Result,
};
use crate::errors::{
    code_for, exit_for, CliError, CliErrorView, ReadFailureView, EXIT_GENERAL, EXIT_NOT_FOUND, EXIT_OK,
};
use crate::files::{
    content_text, key_in, no_key_code, no_key_exit, read_key, Content, ContentView,
};
use crate::keys::{optional_text, private_key_failure, private_key_fingerprint};
use crate::report::{
    batch_exit, emit_error, emit_results, error_output, failed, listing_view, outcomes_view,
    results_output, succeeded, DocumentView, Outcome, OutcomeView, Output, OutputMode, OutputView,
};

verus! {

/// The name of the command.
pub const COMMAND: &'static str = "gitway biometric forget";

/// What is due.
#[derive(Debug, Clone, Copy, PartialEq, Eq, Structural)]
pub enum Step {
    /// List all enrollments.
    List,
    /// Read the current key file.
    ReadFile,
    /// Delete the enrollment of the current target.
    Delete,
    /// Everything is done.
    Finished,
    /// The enrollments could not be listed, which ends the run.
    Refused,
}

/// The reply to what was due.
pub enum Reply {
    /// The enrollments, or why they cannot be listed.
    Listed(Result<Vec<EnrolledKey>>),
    /// The content of the file, or why it cannot be read.
    Content(Content),
    /// Whether the vault deleted the enrollment.
    Deleted(Result<()>),
}

/// A [`Reply`] with its texts.
pub enum ReplyView {
    Listed(core::result::Result<Seq<EnrolledKeyView>, ErrorView>),
    Content(ContentView),
    Deleted(core::result::Result<(), ErrorView>),
}

impl View for Reply {
    type V = ReplyView;

    open spec fn view(&self) -> ReplyView {
        match self {
            Reply::Listed(listing) => ReplyView::Listed(listing_view(*listing)),
            Reply::Content(content) => ReplyView::Content(content_text(*content)),
            Reply::Deleted(outcome) => ReplyView::Deleted(
                match *outcome {
                    Ok(_) => Ok(()),
                    Err(error) => Err(error@),
                },
            ),
        }
    }
}

/// A forget run under way.
pub struct Run {
    all: bool,
    /// The key files, or the fingerprints of all enrollments.
    targets: Vec<String>,
    step: Step,
    /// The identifier that the current target stands for in the vault.
    id: Option<String>,
    results: Vec<Outcome>,
    exit: u32,
    /// Why the enrollments could not be listed.
    refusal: Option<BiometricError>,
}

/// A [`Run`] with its texts.  The current target is the one behind those that
/// have a result.
pub struct RunView {
    pub all: bool,
    pub targets: Seq<Seq<char>>,
    pub step: Step,
    pub id: Option<Seq<char>>,
    pub results: Seq<OutcomeView>,
    pub exit: u32,
    pub refusal: Option<ErrorView>,
}

impl View for Run {
    type V = RunView;

    closed spec fn view(&self) -> RunView {
        RunView {
            all: self.all,
            targets: texts(self.targets@),
            step: self.step,
            id: optional_text(self.id),
            results: outcomes_view(self.results@),
            exit: self.exit,
            refusal: match self.refusal {
                Some(error) => Some(error@),
                None => None,
            },
        }
    }
}

impl RunView {
    /// The current target.
    pub open spec fn target(self) -> Seq<char> {
        self.targets[self.results.len() as int]
    }
}

/// A run at its beginning, or the usage error of a run over nothing.
pub open spec fn begun(all: bool, files: Seq<Seq<char>>) -> core::result::Result<
    RunView,
    CliErrorView,
> {
    if all {
        Ok(
            RunView {
                all,
                targets: Seq::empty(),
                step: Step::List,
                id: None,
                results: Seq::empty(),
                exit: EXIT_OK,
                refusal: None,
            },
        )
    } else if files.len() == 0 {
        Err(
            CliErrorView::InvalidConfig(
                "specify one or more key files to forget, or pass --all"@,
            ),
        )
    } else {
        Ok(
            RunView {
                all,
                targets: files,
                step: Step::ReadFile,
                id: None,
                results: Seq::empty(),
                exit: EXIT_OK,
                refusal: None,
            },
        )
    }
}

/// A run that turns to its current target.  An enrollment that was listed is
/// known by its fingerprint, a key file has to be read.
pub open spec fn turned(run: RunView) -> RunView {
    if run.results.len() >= run.targets.len() {
        RunView { step: Step::Finished, id: None, ..run }
    } else if run.all {
        RunView { step: Step::Delete, id: Some(key_id_of(run.target())), ..run }
    } else {
        RunView { step: Step::ReadFile, id: None, ..run }
    }
}

/// A run after the current target got its result.
pub open spec fn recorded(run: RunView, outcome: OutcomeView) -> RunView {
    turned(
        RunView {
            results: run.results.push(outcome),
            exit: if outcome.ok {
                run.exit
            } else {
                outcome.exit_code
            },
            ..run
        },
    )
}

/// The fingerprints of a listing.
pub open spec fn fingerprints(keys: Seq<EnrolledKeyView>) -> Seq<Seq<char>> {
    keys.map_values(|key: EnrolledKeyView| key.fingerprint)
}

/// A run after the enrollments were listed.
pub open spec fn after_listing(
    run: RunView,
    listing: core::result::Result<Seq<EnrolledKeyView>, ErrorView>,
) -> RunView {
    match listing {
        Err(error) => RunView {
            step: Step::Refused,
            exit: code_for(error),
            refusal: Some(error),
            ..run
        },
        Ok(keys) => turned(RunView { targets: fingerprints(keys), ..run }),
    }
}

/// A run after the current key file was read.
pub open spec fn after_content(run: RunView, content: ContentView) -> RunView {
    match key_in(run.target(), content) {
        Err(message) => recorded(run, failed(run.target(), message, no_key_code(content))),
        Ok(pem) => RunView {
            step: Step::Delete,
            id: Some(key_id_of(private_key_fingerprint(pem))),
            ..run
        },
    }
}

/// A run after the vault was asked to delete an enrollment.
pub open spec fn after_deletion(
    run: RunView,
    id: Seq<char>,
    outcome: core::result::Result<(), ErrorView>,
) -> RunView {
    match outcome {
        Ok(_) => recorded(run, succeeded(run.target(), fingerprint_in(id))),
        Err(error) => recorded(run, failed(run.target(), error.message(), code_for(error))),
    }
}

/// A run after a reply.  A reply that does not answer what is due changes
/// nothing.
pub open spec fn after(run: RunView, reply: ReplyView) -> RunView {
    match (run.step, reply, run.id) {
        (Step::List, ReplyView::Listed(listing), _) => after_listing(run, listing),
        (Step::ReadFile, ReplyView::Content(content), _) => after_content(run, content),
        (Step::Delete, ReplyView::Deleted(outcome), Some(id)) => after_deletion(run, id, outcome),
        (_, _, _) => run,
    }
}

/// What holds of a run at any time.  Above all, the results so far belong to the
/// first targets in their order, the exit code is that of their last failure,
/// and an enrollment that was listed is deleted under the identifier of its
/// fingerprint.
pub open spec fn proper(run: RunView) -> bool {
    &&& run.results.len() <= run.targets.len()
    &&& forall|i: int|
        0 <= i < run.results.len() ==> (#[trigger] run.results[i]).target == run.targets[i]
    &&& match run.step {
        Step::List => run.all && run.id is None && run.refusal is None && run.targets.len() == 0
            && run.exit == EXIT_OK,
        Step::ReadFile => !run.all && run.id is None && run.refusal is None && run.results.len()
            < run.targets.len() && run.exit == batch_exit(run.results),
        Step::Delete => {
            &&& run.id matches Some(id)
            &&& run.all ==> id == key_id_of(run.target())
            &&& run.refusal is None
            &&& run.results.len() < run.targets.len()
            &&& run.exit == batch_exit(run.results)
        },
        Step::Finished => run.id is None && run.refusal is None && run.results.len()
            == run.targets.len() && run.exit == batch_exit(run.results),
        Step::Refused => {
            &&& run.all
            &&& run.id is None
            &&& run.results.len() == 0
            &&& run.refusal matches Some(error)
            &&& run.exit == code_for(error)
        },
    }
}

proof fn lemma_recorded(run: RunView, outcome: OutcomeView)
    requires
        proper(run),
        run.step == Step::ReadFile || run.step == Step::Delete,
        outcome.target == run.target(),
    ensures
        proper(recorded(run, outcome)),
{
    let results = run.results.push(outcome);
    assert(results.drop_last() =~= run.results);
}

proof fn lemma_after(run: RunView, reply: ReplyView)
    requires
        proper(run),
    ensures
        proper(after(run, reply)),
{
    match (run.step, reply, run.id) {
        (Step::ReadFile, ReplyView::Content(content), _) => {
            match key_in(run.target(), content) {
                Err(message) => {
                    lemma_recorded(run, failed(run.target(), message, no_key_code(content)));
                },
                Ok(_) => {},
            }
        },
        (Step::Delete, ReplyView::Deleted(outcome), Some(id)) => {
            match outcome {
                Ok(_) => {
                    lemma_recorded(run, succeeded(run.target(), fingerprint_in(id)));
                },
                Err(error) => {
                    lemma_recorded(run, failed(run.target(), error.message(), code_for(error)));
                },
            }
        },
        (_, _, _) => {},
    }
}

impl Run {
    #[verifier::type_invariant]
    spec fn is_proper(self) -> bool {
        proper(self@)
    }

    /// Begins a run over all enrollments or over the given key files.
    pub fn start(all: bool, files: Vec<String>) -> (r: core::result::Result<Run, CliError>)
        ensures
            (match r {
                Ok(run) => Ok(run@),
                Err(error) => Err(error@),
            }) == begun(all, texts(files@)),
    {
        let results: Vec<Outcome> = Vec::new();
        assert(outcomes_view(results@) =~= Seq::empty());
        assert(texts(files@).len() == files@.len());
        if all {
            let targets: Vec<String> = Vec::new();
            assert(texts(targets@) =~= Seq::empty());
            Ok(
                Run {
                    all,
                    targets,
                    step: Step::List,
                    id: None,
                    results,
                    exit: EXIT_OK,
                    refusal: None,
                },
            )
        } else if files.is_empty() {
            Err(
                CliError::InvalidConfig(
                    "specify one or more key files to forget, or pass --all".to_owned(),
                ),
            )
        } else {
            Ok(
                Run {
                    all,
                    targets: files,
                    step: Step::ReadFile,
                    id: None,
                    results,
                    exit: EXIT_OK,
                    refusal: None,
                },
            )
        }
    }

    /// What is due.
    pub fn step(&self) -> (r: Step)
        ensures
            r == self@.step,
    {
        self.step
    }

    /// The path of the key file to read, when that is what is due.
    pub fn path(&self) -> (r: Option<&str>)
        ensures
            match r {
                Some(path) => self@.step == Step::ReadFile && path@ == self@.target(),
                None => self@.step != Step::ReadFile,
            },
    {
        proof {
            use_type_invariant(self);
        }
        assert(texts(self.targets@).len() == self.targets@.len());
        assert(outcomes_view(self.results@).len() == self.results@.len());
        if self.step == Step::ReadFile {
            Some(self.targets[self.results.len()].as_str())
        } else {
            None
        }
    }

    /// The identifier that the vault is asked to delete, when that is what is
    /// due.
    pub fn delete_request(&self) -> (r: Option<&str>)
        ensures
            match r {
                Some(id) => self@.step == Step::Delete && self@.id == Some(id@),
                None => self@.step != Step::Delete,
            },
    {
        proof {
            use_type_invariant(self);
        }
        if self.step != Step::Delete {
            return None;
        }
        match &self.id {
            Some(id) => Some(id.as_str()),
            None => None,
        }
    }

    /// Takes the enrollments.
    fn take_listing(self, listing: Result<Vec<EnrolledKey>>) -> (r: Run)
        requires
            self@.step == Step::List,
        ensures
            r@ == after_listing(self@, listing_view(listing)),
    {
        proof {
            use_type_invariant(&self);
            lemma_after(self@, Reply::Listed(listing)@);
        }
        let keys: Vec<EnrolledKey> = match listing {
            Ok(keys) => keys,
            Err(error) => {
                let exit: u32 = exit_for(&error);
                return Run { step: Step::Refused, exit, refusal: Some(error), ..self };
            },
        };
        let mut targets: Vec<String> = Vec::new();
        let mut i: usize = 0;
        while i < keys.len()
            invariant
                i <= keys@.len(),
                targets@.len() == i,
                forall|j: int| 0 <= j < i ==> (#[trigger] targets@[j])@ == keys@[j].fingerprint@,
            decreases keys@.len() - i,
        {
            targets.push(keys[i].fingerprint.clone());
            i += 1;
        }
        assert(texts(targets@) =~= fingerprints(keys_view(keys@)));
        assert(outcomes_view(self.results@).len() == self.results@.len());
        if targets.is_empty() {
            assert(texts(targets@).len() == 0);
            Run { targets, step: Step::Finished, id: None, ..self }
        } else {
            let id: String = key_id_from_fingerprint(targets[0].as_str());
            Run { targets, step: Step::Delete, id: Some(id), ..self }
        }
    }

    /// Records the result of the current target and turns to the next one.
    fn record(self, outcome: Outcome) -> (r: Run)
        requires
            self@.step == Step::ReadFile || self@.step == Step::Delete,
            outcome@.target == self@.target(),
        ensures
            r@ == recorded(self@, outcome@),
    {
        proof {
            use_type_invariant(&self);
            lemma_recorded(self@, outcome@);
        }
        let ghost before = self@;
        let ghost view = outcome@;
        let all: bool = self.all;
        let targets: Vec<String> = self.targets;
        let mut results: Vec<Outcome> = self.results;
        let exit: u32 = if outcome.ok {
            self.exit
        } else {
            outcome.exit_code
        };
        results.push(outcome);
        assert(outcomes_view(results@) =~= before.results.push(view));
        assert(texts(targets@).len() == targets@.len());
        if results.len() >= targets.len() {
            Run { all, targets, step: Step::Finished, id: None, results, exit, refusal: self.refusal }
        } else if all {
            let id: String = key_id_from_fingerprint(targets[results.len()].as_str());
            Run { all, targets, step: Step::Delete, id: Some(id), results, exit, refusal: self.refusal }
        } else {
            Run { all, targets, step: Step::ReadFile, id: None, results, exit, refusal: self.refusal }
        }
    }

    /// Takes the content of the current key file.
    fn take_content(self, content: Content) -> (r: Run)
        requires
            self@.step == Step::ReadFile,
        ensures
            r@ == after_content(self@, content_text(content)),
    {
        proof {
            use_type_invariant(&self);
            lemma_after(self@, Reply::Content(content)@);
        }
        assert(texts(self.targets@).len() == self.targets@.len());
        assert(outcomes_view(self.results@).len() == self.results@.len());
        let path: String = self.targets[self.results.len()].clone();
        let exit: u32 = no_key_exit(&content);
        match read_key(path.as_str(), content) {
            Err(message) => self.record(Outcome::failed(path, message, exit)),
            Ok(key) => Run { step: Step::Delete, id: Some(key_id(&key)), ..self },
        }
    }

    /// Takes the answer of the vault.
    fn take_deletion(self, outcome: Result<()>) -> (r: Run)
        requires
            self@.step == Step::Delete,
        ensures
            r@ == after(self@, Reply::Deleted(outcome)@),
    {
        proof {
            use_type_invariant(&self);
        }
        assert(texts(self.targets@).len() == self.targets@.len());
        assert(outcomes_view(self.results@).len() == self.results@.len());
        let target: String = self.targets[self.results.len()].clone();
        match outcome {
            Ok(_) => {
                let fingerprint: String = match &self.id {
                    Some(id) => fingerprint_of(id.as_str()).to_owned(),
                    None => String::new(),
                };
                self.record(Outcome::ok(target, fingerprint))
            },
            Err(error) => {
                let code: u32 = exit_for(&error);
                self.record(Outcome::failed(target, error.to_string(), code))
            },
        }
    }

    /// Takes the reply to what was due.  A reply that does not answer it is
    /// ignored.
    pub fn reply(self, reply: Reply) -> (r: Run)
        ensures
            r@ == after(self@, reply@),
    {
        match reply {
            Reply::Listed(listing) => if self.step == Step::List {
                self.take_listing(listing)
            } else {
                self
            },
            Reply::Content(content) => if self.step == Step::ReadFile {
                self.take_content(content)
            } else {
                self
            },
            Reply::Deleted(outcome) => if self.step == Step::Delete {
                self.take_deletion(outcome)
            } else {
                self
            },
        }
    }

    /// What is printed for the results so far, or for the failed listing, and
    /// the exit code.
    pub fn report(&self, mode: OutputMode) -> (r: (Output, u32))
        ensures
            r.0@ == (match self@.refusal {
                Some(error) => error_output(mode, COMMAND@, error),
                None => results_output(mode, COMMAND@, self@.results, "forgot"@),
            }),
            r.1 == self@.exit,
    {
        proof {
            use_type_invariant(self);
        }
        match &self.refusal {
            Some(error) => emit_error(error, mode, COMMAND),
            None => (emit_results(mode, COMMAND, &self.results, "forgot"), self.exit),
        }
    }
}

/// A run after a sequence of replies.
pub open spec fn run(state: RunView, replies: Seq<ReplyView>) -> RunView
    decreases replies.len(),
{
    if replies.len() == 0 {
        state
    } else {
        run(after(state, replies[0]), replies.drop_first())
    }
}

/// Whatever the replies: each target gets its one result in turn, the exit code
/// is that of the last failure, and forgetting all enrollments deletes exactly
/// the identifiers of the fingerprints that were listed.
pub proof fn forgetting_keeps_the_books(
    all: bool,
    files: Seq<Seq<char>>,
    replies: Seq<ReplyView>,
)
    ensures
        begun(all, files) matches Ok(start) ==> proper(run(start, replies)),
{
    match begun(all, files) {
        Ok(start) => {
            lemma_run(start, replies);
        },
        Err(_) => {},
    }
}

proof fn lemma_run(state: RunView, replies: Seq<ReplyView>)
    requires
        proper(state),
    ensures
        proper(run(state, replies)),
    decreases replies.len(),
{
    if replies.len() > 0 {
        lemma_after(state, replies[0]);
        lemma_run(after(state, replies[0]), replies.drop_first());
    }
}

/// Deleting an enrollment that was listed reports the fingerprint that it was
/// listed by.
pub proof fn forgotten_enrollments_are_reported_by_fingerprint(state: RunView)
    requires
        proper(state),
        state.all,
        state.step == Step::Delete,
    ensures
        after(state, ReplyView::Deleted(Ok(()))).results == state.results.push(
            succeeded(state.target(), state.target()),
        ),
{
    fingerprint_of_key_id(state.target());
}

/// Forgetting a key that is not enrolled is reported as a failure whose exit
/// code means "not found".
pub proof fn forgetting_an_unknown_key_is_not_found(state: RunView)
    requires
        proper(state),
        state.step == Step::Delete,
    ensures
        after(state, ReplyView::Deleted(Err(ErrorView::NotEnrolled))).exit
            == EXIT_NOT_FOUND,
{
}

/// A key file that cannot be read is reported as a failure: the exit code means
/// "not found" where the file is missing, and a general error otherwise.
pub proof fn unreadable_files_are_reported(state: RunView, failure: ReadFailureView)
    requires
        proper(state),
        state.step == Step::ReadFile,
    ensures
        after(state, ReplyView::Content(Err(failure))).exit == (if failure.missing {
            EXIT_NOT_FOUND
        } else {
            EXIT_GENERAL
        }),
{
}

/// Whether a reply answers what is due.
pub open spec fn answers(step: Step, reply: ReplyView) -> bool {
    match step {
        Step::List => reply is Listed,
        Step::ReadFile => reply is Content,
        Step::Delete => reply is Deleted,
        Step::Finished => false,
        Step::Refused => false,
    }
}

/// Whether every one of a sequence of replies answers what is due when it comes.
pub open spec fn all_answer(state: RunView, replies: Seq<ReplyView>) -> bool
    decreases replies.len(),
{
    replies.len() > 0 ==> answers(state.step, replies[0]) && all_answer(
        after(state, replies[0]),
        replies.drop_first(),
    )
}

/// The most replies that a run can still take, once its targets are known.
spec fn remaining(run: RunView) -> int {
    let targets = run.targets.len() - run.results.len();
    match run.step {
        Step::ReadFile => 2 * targets,
        Step::Delete => if run.all {
            targets
        } else {
            2 * targets - 1
        },
        _ => 0,
    }
}

proof fn lemma_remaining(state: RunView, replies: Seq<ReplyView>)
    requires
        proper(state),
        state.step != Step::List,
        all_answer(state, replies),
    ensures
        replies.len() <= remaining(state),
        run(state, replies).targets == state.targets,
    decreases replies.len(),
{
    if replies.len() > 0 {
        let next = after(state, replies[0]);
        lemma_after(state, replies[0]);
        lemma_remaining(next, replies.drop_first());
        assert(remaining(next) < remaining(state));
    }
}

/// A run never goes on for good: over given files it takes at most two answers
/// per file, and over all enrollments the listing and one answer per enrollment.
pub proof fn every_run_ends(all: bool, files: Seq<Seq<char>>, replies: Seq<ReplyView>)
    requires
        begun(all, files) matches Ok(start) && all_answer(start, replies),
    ensures
        begun(all, files) matches Ok(start) && replies.len() <= if all {
            1 + run(start, replies).targets.len()
        } else {
            2 * files.len()
        },
{
    let start = begun(all, files)->Ok_0;
    if all {
        if replies.len() > 0 {
            lemma_after(start, replies[0]);
            lemma_remaining(after(start, replies[0]), replies.drop_first());
        }
    } else {
        lemma_remaining(start, replies);
    }
}

/// A reply that does not answer what is due, and any reply to a run that is over,
/// changes nothing.
pub proof fn only_answers_change_a_run(state: RunView, reply: ReplyView)
    requires
        proper(state),
        !answers(state.step, reply),
    ensures
        after(state, reply) == state,
{
}

/// A target is reported as forgotten exactly if the vault was asked to delete its
/// enrollment and said that it did; the report names the target and the
/// fingerprint that was deleted.
pub proof fn forgotten_means_deleted(state: RunView, reply: ReplyView)
    requires
        proper(state),
    ensures
        ({
            let next = after(state, reply);
            let grew = next.results.len() == state.results.len() + 1;
            &&& grew && next.results.last().ok <==> state.step == Step::Delete && (
            reply matches ReplyView::Deleted(outcome) && outcome is Ok)
            &&& grew && next.results.last().ok ==> {
                &&& next.results.last().target == state.targets[state.results.len() as int]
                &&& next.results.last().fingerprint == Some(fingerprint_in(state.id->0))
                &&& next.results.last().message.len() == 0
                &&& next.results.last().exit_code == 0
            }
        }),
{
}

/// A target gets a failure as its result exactly if its file gives no key or the
/// vault did not delete the enrollment.
pub proof fn failures_have_their_cause(state: RunView, reply: ReplyView)
    requires
        proper(state),
    ensures
        ({
            let next = after(state, reply);
            let target = state.targets[state.results.len() as int];
            let failure = next.results.last();
            let failed = next.results.len() == state.results.len() + 1 && !failure.ok;
            &&& failed ==> failure.target == target && failure.fingerprint is None
            &&& match (state.step, reply) {
                (Step::ReadFile, ReplyView::Content(Err(unread))) => failed && failure.message
                    == "cannot read "@ + target + ": "@ + unread.why && failure.exit_code == (
                if unread.missing {
                    3u32
                } else {
                    1
                }),
                (Step::ReadFile, ReplyView::Content(Ok(pem))) => {
                    &&& failed <==> private_key_failure(pem) is Some
                    &&& private_key_failure(pem) matches Some(why) ==> failure.exit_code == 2
                        && failure.message == "cannot parse "@ + target + ": "@ + why
                },
                (Step::Delete, ReplyView::Deleted(Err(error))) => failed && failure.exit_code
                    == code_for(error) && failure.message == error.message(),
                (_, _) => !failed,
            }
        }),
{
}

/// The results of the earlier targets never change, each reply adds at most one,
/// and with each of them the next target is due, until there is none.  The exit
/// code is that of the failure that came last.
pub proof fn results_come_one_by_one(state: RunView, reply: ReplyView)
    requires
        proper(state),
    ensures
        ({
            let next = after(state, reply);
            let grew = next.results.len() == state.results.len() + 1;
            &&& next.all == state.all
            &&& state.step != Step::List ==> next.targets == state.targets
            &&& grew || next.results == state.results
            &&& state.results.is_prefix_of(next.results)
            &&& grew ==> next.step == if next.results.len() >= state.targets.len() {
                Step::Finished
            } else if state.all {
                Step::Delete
            } else {
                Step::ReadFile
            }
            &&& !grew && state.step != Step::ReadFile ==> next.step != Step::ReadFile
            &&& !grew && state.step != Step::Finished && state.step != Step::List ==> next.step
                != Step::Finished
            &&& next.step != Step::Refused ==> next.exit == if grew && !next.results.last().ok {
                next.results.last().exit_code
            } else {
                state.exit
            }
        }),
{
    let next = after(state, reply);
    if next.results.len() == state.results.len() + 1 {
        assert(state.results =~= next.results.subrange(0, state.results.len() as int));
    } else {
        assert(next.results == state.results);
        assert(state.results =~= next.results.subrange(0, state.results.len() as int));
    }
}

/// The enrollments that a listing shows are the targets, all of them and in their
/// order; a listing that failed ends the run with its error.
pub proof fn a_listing_names_the_targets(state: RunView, reply: ReplyView)
    requires
        proper(state),
        state.step == Step::List,
    ensures
        ({
            let next = after(state, reply);
            match reply {
                ReplyView::Listed(Ok(keys)) => {
                    &&& next.targets.len() == keys.len()
                    &&& forall|i: int|
                        0 <= i < keys.len() ==> #[trigger] next.targets[i] == keys[i].fingerprint
                    &&& next.step == if keys.len() == 0 {
                        Step::Finished
                    } else {
                        Step::Delete
                    }
                },
                ReplyView::Listed(Err(error)) => next.step == Step::Refused && next.refusal
                    == Some(error) && next.exit == code_for(error),
                _ => next == state,
            }
        }),
{
}

/// What the vault is asked to delete: for a key file the identifier of the key in
/// it, and for an enrollment that was listed the identifier of its fingerprint.
pub proof fn deletions_are_about_the_current_target(state: RunView, reply: ReplyView)
    requires
        proper(state),
    ensures
        ({
            let next = after(state, reply);
            &&& state.step == Step::ReadFile ==> (next.step == Step::Delete <==> (
            reply matches ReplyView::Content(Ok(pem)) && private_key_failure(pem) is None))
            &&& state.step == Step::ReadFile && next.step == Step::Delete ==> (
            reply matches ReplyView::Content(Ok(pem)) && next.id == Some(
                key_id_of(private_key_fingerprint(pem)),
            ))
            &&& next.all && next.step == Step::Delete ==> next.id == Some(
                key_id_of(next.targets[next.results.len() as int]),
            )
        }),
{
    lemma_after(state, reply);
}

/// The identifiers that the vault was asked to delete while a sequence of replies
/// came in.
pub open spec fn deletions(state: RunView, replies: Seq<ReplyView>) -> Seq<Seq<char>>
    decreases replies.len(),
{
    if replies.len() == 0 {
        Seq::empty()
    } else {
        let rest = deletions(after(state, replies[0]), replies.drop_first());
        if state.step == Step::Delete && replies[0] is Deleted {
            seq![state.id->0] + rest
        } else {
            rest
        }
    }
}

proof fn lemma_deletions(state: RunView, replies: Seq<ReplyView>)
    requires
        proper(state),
        state.all,
        state.step != Step::List,
        run(state, replies).step == Step::Finished,
    ensures
        deletions(state, replies) == state.targets.skip(state.results.len() as int).map_values(
            |target: Seq<char>| key_id_of(target),
        ),
        run(state, replies).targets == state.targets,
    decreases replies.len(),
{
    let ids = state.targets.skip(state.results.len() as int).map_values(
        |target: Seq<char>| key_id_of(target),
    );
    if replies.len() > 0 {
        let next = after(state, replies[0]);
        lemma_after(state, replies[0]);
        results_come_one_by_one(state, replies[0]);
        lemma_deletions(next, replies.drop_first());
        if state.step == Step::Delete && replies[0] is Deleted {
            assert(next.results.len() == state.results.len() + 1);
            assert(ids =~= seq![key_id_of(state.target())] + state.targets.skip(
                next.results.len() as int,
            ).map_values(|target: Seq<char>| key_id_of(target)));
        }
    } else {
        assert(ids =~= Seq::empty());
    }
}

/// Forgetting all enrollments asks the vault to delete exactly those that it
/// listed, each of them once and in their order.
pub proof fn all_means_all(files: Seq<Seq<char>>, replies: Seq<ReplyView>)
    requires
        begun(true, files) matches Ok(start) && run(start, replies).step == Step::Finished,
    ensures
        begun(true, files) matches Ok(start) && deletions(start, replies) == run(
            start,
            replies,
        ).targets.map_values(|target: Seq<char>| key_id_of(target)) && run(
            start,
            replies,
        ).results.len() == run(start, replies).targets.len(),
{
    let start = begun(true, files)->Ok_0;
    lemma_all(start, replies);
}

proof fn lemma_all(start: RunView, replies: Seq<ReplyView>)
    requires
        proper(start),
        start.step == Step::List,
        run(start, replies).step == Step::Finished,
    ensures
        deletions(start, replies) == run(start, replies).targets.map_values(
            |target: Seq<char>| key_id_of(target),
        ),
        run(start, replies).results.len() == run(start, replies).targets.len(),
    decreases replies.len(),
{
    lemma_run(start, replies);
    if replies.len() > 0 {
        let next = after(start, replies[0]);
        lemma_after(start, replies[0]);
        if next.step == Step::List {
            lemma_all(next, replies.drop_first());
        } else {
            lemma_deletions(next, replies.drop_first());
            assert(next.targets.skip(0) =~= next.targets);
        }
    }
}

/// A run over given files reads and reports each of them, in their order; a run
/// over nothing is refused.
pub proof fn files_are_taken_as_given(files: Seq<Seq<char>>)
    ensures
        begun(false, files) is Err <==> files.len() == 0,
        begun(false, files) matches Ok(start) ==> start.targets == files && start.step
            == Step::ReadFile && !start.all && start.results.len() == 0 && start.exit == 0,
        begun(false, files) matches Err(error) ==> error.code() == 2,
        begun(true, files) matches Ok(start) && start.all && start.step == Step::List
            && start.results.len() == 0 && start.exit == 0,
{
}

/// The vault is asked to delete the identifier that the run holds, and the file
/// that is read is the current target.
pub proof fn requests_are_about_the_current_target(state: &Run, id: &str, path: &str)
    ensures
        call_ensures(Run::delete_request, (state,), Some(id)) ==> state@.step == Step::Delete
            && state@.id == Some(id@),
        call_ensures(Run::path, (state,), Some(path)) ==> state@.step == Step::ReadFile && path@
            == state@.targets[state@.results.len() as int],
{
}

/// The report of a run shows its results, one by one and in their order, and its
/// exit code: a removed enrollment is reported as forgotten, and a failure by its
/// message.  A run that could not list the enrollments reports that error alone.
pub proof fn the_report_shows_every_result(state: &Run, mode: OutputMode, r: (Output, u32))
    requires
        call_ensures(Run::report, (state, mode), r),
    ensures
        r.1 == state@.exit,
        state@.refusal matches Some(error) ==> r.0@ == error_output(
            mode,
            "gitway biometric forget"@,
            error,
        ),
        state@.refusal is None ==> match r.0@ {
            OutputView::Lines(lines) => {
                &&& mode == OutputMode::Human
                &&& lines.len() == state@.results.len()
                &&& forall|i: int|
                    0 <= i < lines.len() ==> (#[trigger] lines[i]).text == if state@.results[i].ok {
                        "gitway: "@ + "forgot"@ + " "@ + state@.results[i].target
                    } else {
                        "gitway: "@ + state@.results[i].target + ": "@ + state@.results[i].message
                    }
            },
            OutputView::Json { command, document } => {
                &&& mode == OutputMode::Json
                &&& command == "gitway biometric forget"@
                &&& document matches DocumentView::Results { rows }
                &&& rows.len() == state@.results.len()
                &&& forall|i: int|
                    0 <= i < rows.len() ==> (#[trigger] rows[i]).message
                        == if state@.results[i].ok {
                        "forgot"@
                    } else {
                        state@.results[i].message
                    }
            },
        },
{
}

/// A run that is driven by calls is the run that its replies make.
pub proof fn runs_follow_their_replies(
    all: bool,
    files: Vec<String>,
    start: Run,
    one: Reply,
    next: Run,
    two: Reply,
    last: Run,
)
    requires
        call_ensures(Run::start, (all, files), Ok::<Run, CliError>(start)),
        call_ensures(Run::reply, (start, one), next),
        call_ensures(Run::reply, (next, two), last),
    ensures
        begun(all, texts(files@)) matches Ok(state) && last@ == run(state, seq![one@, two@]),
        forall|step: Step| #[trigger]
            call_ensures(Run::step, (&last,), step) ==> step == last@.step,
{
    let replies = seq![one@, two@];
    let rest = replies.drop_first();
    assert(rest[0] == two@);
    assert(rest.drop_first().len() == 0);
    assert(run(last@, rest.drop_first()) == last@);
    assert(run(next@, rest) == last@);
}

/// A reply is seen as it is: what was listed, read or deleted, or why it was not, and
/// nothing else.
pub proof fn replies_are_seen_as_they_are(reply: Reply)
    ensures
        match reply {
            Reply::Listed(Ok(keys)) => reply@ matches ReplyView::Listed(Ok(list)) && list.len()
                == keys@.len() && forall|i: int|
                0 <= i < list.len() ==> #[trigger] list[i] == keys@[i]@,
            Reply::Listed(Err(error)) => reply@ == ReplyView::Listed(Err(error@)),
            Reply::Content(Ok(text)) => reply@ == ReplyView::Content(Ok(text@)),
            Reply::Content(Err(failure)) => reply@ == ReplyView::Content(
                Err(ReadFailureView { missing: failure.missing, why: failure.why@ }),
            ),
            Reply::Deleted(Ok(_)) => reply@ matches ReplyView::Deleted(outcome) && outcome is Ok,
            Reply::Deleted(Err(error)) => reply@ == ReplyView::Deleted(Err(error@)),
        },
{
}

} // verus!
