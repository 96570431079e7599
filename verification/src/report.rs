//! What the `gitway biometric` commands print, in human and in JSON mode.
//!
//! The functions here decide what is printed and which exit code goes with it.
//! A JSON document is described by its data; the envelope around it is the
//! printer's.

use vstd::prelude::*;

use crate::biometric::{
    keys_view, BiometricError, EnrolledKey, EnrolledKeyView, ErrorView, Result, Tier,
};
use crate::errors::{code_for, exit_for, EXIT_OK};
use crate::keys::optional_text;
use crate::text::{decimal, decimal_text, join2, join3};

verus! {

/// How results are printed.
#[derive(Debug, Clone, Copy, PartialEq, Eq, Structural)]
pub enum OutputMode {
    Json,
    Human,
}

/// Where a line is printed.
#[derive(Debug, Clone, Copy, PartialEq, Eq, Structural)]
pub enum Stream {
    Stdout,
    Stderr,
}

/// A line of human output.
#[derive(Debug)]
pub struct Line {
    pub stream: Stream,
    pub text: String,
}

/// A [`Line`] with its text.
pub struct LineView {
    pub stream: Stream,
    pub text: Seq<char>,
}

impl View for Line {
    type V = LineView;

    open spec fn view(&self) -> LineView {
        LineView { stream: self.stream, text: self.text@ }
    }
}

/// The texts of a list of lines.
pub open spec fn lines_view(lines: Seq<Line>) -> Seq<LineView> {
    lines.map_values(|line: Line| line@)
}

/// A line on standard output.
pub fn stdout(text: String) -> (r: Line)
    ensures
        r@ == (LineView { stream: Stream::Stdout, text: text@ }),
{
    Line { stream: Stream::Stdout, text }
}

/// A line on standard error.
pub fn stderr(text: String) -> (r: Line)
    ensures
        r@ == (LineView { stream: Stream::Stderr, text: text@ }),
{
    Line { stream: Stream::Stderr, text }
}

/// The outcome of a single enroll or forget operation, for batch reporting.
#[derive(Debug)]
pub struct Outcome {
    pub target: String,
    pub ok: bool,
    pub message: String,
    pub fingerprint: Option<String>,
    pub exit_code: u32,
}

/// An [`Outcome`] with its texts.
pub struct OutcomeView {
    pub target: Seq<char>,
    pub ok: bool,
    pub message: Seq<char>,
    pub fingerprint: Option<Seq<char>>,
    pub exit_code: u32,
}

impl View for Outcome {
    type V = OutcomeView;

    open spec fn view(&self) -> OutcomeView {
        OutcomeView {
            target: self.target@,
            ok: self.ok,
            message: self.message@,
            fingerprint: optional_text(self.fingerprint),
            exit_code: self.exit_code,
        }
    }
}

/// A success.
pub open spec fn succeeded(target: Seq<char>, fingerprint: Seq<char>) -> OutcomeView {
    OutcomeView {
        target,
        ok: true,
        message: Seq::empty(),
        fingerprint: Some(fingerprint),
        exit_code: EXIT_OK,
    }
}

/// A failure, with its message and exit code.
pub open spec fn failed(target: Seq<char>, message: Seq<char>, exit_code: u32) -> OutcomeView {
    OutcomeView { target, ok: false, message, fingerprint: None, exit_code }
}

impl Outcome {
    /// A success.
    pub fn ok(target: String, fingerprint: String) -> (r: Outcome)
        ensures
            r@ == succeeded(target@, fingerprint@),
    {
        Outcome {
            target,
            ok: true,
            message: String::new(),
            fingerprint: Some(fingerprint),
            exit_code: EXIT_OK,
        }
    }

    /// A failure, with its message and exit code.
    pub fn failed(target: String, message: String, exit_code: u32) -> (r: Outcome)
        ensures
            r@ == failed(target@, message@, exit_code),
    {
        Outcome { target, ok: false, message, fingerprint: None, exit_code }
    }
}

/// The texts of a list of outcomes.
pub open spec fn outcomes_view(results: Seq<Outcome>) -> Seq<OutcomeView> {
    results.map_values(|outcome: Outcome| outcome@)
}

/// The exit code of a batch: that of its last failure, or success.
pub open spec fn batch_exit(results: Seq<OutcomeView>) -> u32
    decreases results.len(),
{
    if results.len() == 0 {
        EXIT_OK
    } else if results.last().ok {
        batch_exit(results.drop_last())
    } else {
        results.last().exit_code
    }
}

/// A batch ends with success exactly if every operation of it succeeded, as long
/// as no failure carries the code of success.
pub proof fn a_batch_succeeds_as_a_whole(results: Seq<OutcomeView>)
    requires
        forall|i: int| 0 <= i < results.len() && !(#[trigger] results[i]).ok ==> results[i].exit_code
            != EXIT_OK,
    ensures
        batch_exit(results) == EXIT_OK <==> forall|i: int|
            0 <= i < results.len() ==> (#[trigger] results[i]).ok,
    decreases results.len(),
{
    if results.len() > 0 {
        let earlier = results.drop_last();
        assert forall|i: int| 0 <= i < earlier.len() && !(#[trigger] earlier[i]).ok implies earlier[i].exit_code
            != EXIT_OK by {
            assert(earlier[i] == results[i]);
        }
        a_batch_succeeds_as_a_whole(earlier);
        if results.last().ok {
            assert forall|i: int|
                batch_exit(earlier) == EXIT_OK && 0 <= i < results.len() implies (
            #[trigger] results[i]).ok by {
                if i < earlier.len() {
                    assert(earlier[i].ok);
                }
            }
            assert(forall|i: int| 0 <= i < earlier.len() ==> #[trigger] earlier[i] == results[i]);
        } else {
            assert(!results[results.len() - 1].ok);
        }
    }
}

/// A row of a JSON results document.
#[derive(Debug)]
pub struct Row {
    pub target: String,
    pub ok: bool,
    pub fingerprint: Option<String>,
    pub message: String,
}

/// A [`Row`] with its texts.
pub struct RowView {
    pub target: Seq<char>,
    pub ok: bool,
    pub fingerprint: Option<Seq<char>>,
    pub message: Seq<char>,
}

impl View for Row {
    type V = RowView;

    open spec fn view(&self) -> RowView {
        RowView {
            target: self.target@,
            ok: self.ok,
            fingerprint: optional_text(self.fingerprint),
            message: self.message@,
        }
    }
}

/// The texts of a list of rows.
pub open spec fn rows_view(rows: Seq<Row>) -> Seq<RowView> {
    rows.map_values(|row: Row| row@)
}

/// The data of a JSON document.
#[derive(Debug)]
pub enum Document {
    /// The outcomes of a batch.
    Results { rows: Vec<Row> },
    /// A failure.
    Error { exit_code: u32, message: String },
    /// The enrolled keys.
    Enrolled { count: usize, enrolled: Vec<EnrolledKey> },
    /// The state of the backend.
    Status {
        available: bool,
        tier: &'static str,
        description: &'static str,
        enrolled_count: Option<usize>,
    },
}

/// A [`Document`] with its texts.
pub enum DocumentView {
    Results { rows: Seq<RowView> },
    Error { exit_code: u32, message: Seq<char> },
    Enrolled { count: usize, enrolled: Seq<EnrolledKeyView> },
    Status {
        available: bool,
        tier: Seq<char>,
        description: Seq<char>,
        enrolled_count: Option<usize>,
    },
}

impl View for Document {
    type V = DocumentView;

    open spec fn view(&self) -> DocumentView {
        match self {
            Document::Results { rows } => DocumentView::Results { rows: rows_view(rows@) },
            Document::Error { exit_code, message } => DocumentView::Error {
                exit_code: *exit_code,
                message: message@,
            },
            Document::Enrolled { count, enrolled } => DocumentView::Enrolled {
                count: *count,
                enrolled: keys_view(enrolled@),
            },
            Document::Status { available, tier, description, enrolled_count } =>
                DocumentView::Status {
                available: *available,
                tier: tier@,
                description: description@,
                enrolled_count: *enrolled_count,
            },
        }
    }
}

/// What a command prints.
#[derive(Debug)]
pub enum Output {
    /// Lines for a human.
    Lines(Vec<Line>),
    /// A JSON document of the named command.
    Json { command: String, document: Document },
}

/// An [`Output`] with its texts.
pub enum OutputView {
    Lines(Seq<LineView>),
    Json { command: Seq<char>, document: DocumentView },
}

impl View for Output {
    type V = OutputView;

    open spec fn view(&self) -> OutputView {
        match self {
            Output::Lines(lines) => OutputView::Lines(lines_view(lines@)),
            Output::Json { command, document } => OutputView::Json {
                command: command@,
                document: document@,
            },
        }
    }
}

/// The line of an outcome.  `verb` is the word for success.
pub open spec fn outcome_line(outcome: OutcomeView, verb: Seq<char>) -> LineView {
    LineView {
        stream: Stream::Stderr,
        text: if outcome.ok {
            "gitway: "@ + verb + " "@ + outcome.target
        } else {
            "gitway: "@ + outcome.target + ": "@ + outcome.message
        },
    }
}

/// The row of an outcome.  `verb` is the word for success.
pub open spec fn outcome_row(outcome: OutcomeView, verb: Seq<char>) -> RowView {
    RowView {
        target: outcome.target,
        ok: outcome.ok,
        fingerprint: outcome.fingerprint,
        message: if outcome.ok {
            verb
        } else {
            outcome.message
        },
    }
}

/// What is printed for a batch.
pub open spec fn results_output(
    mode: OutputMode,
    command: Seq<char>,
    results: Seq<OutcomeView>,
    verb: Seq<char>,
) -> OutputView {
    match mode {
        OutputMode::Json => OutputView::Json {
            command,
            document: DocumentView::Results {
                rows: results.map_values(|outcome: OutcomeView| outcome_row(outcome, verb)),
            },
        },
        OutputMode::Human => OutputView::Lines(
            results.map_values(|outcome: OutcomeView| outcome_line(outcome, verb)),
        ),
    }
}

/// What is printed for a batch of [`Outcome`]s.  `verb` is the success
/// past-tense word ("enrolled" or "forgot").
pub fn emit_results(mode: OutputMode, command: &str, results: &Vec<Outcome>, verb: &str) -> (r:
    Output)
    ensures
        r@ == results_output(mode, command@, outcomes_view(results@), verb@),
{
    match mode {
        OutputMode::Json => {
            let mut rows: Vec<Row> = Vec::new();
            let mut i: usize = 0;
            while i < results.len()
                invariant
                    i <= results@.len(),
                    rows@.len() == i,
                    forall|j: int|
                        0 <= j < i ==> (#[trigger] rows@[j])@ == outcome_row(results@[j]@, verb@),
                decreases results@.len() - i,
            {
                let outcome: &Outcome = &results[i];
                let message: String = if outcome.ok {
                    verb.to_owned()
                } else {
                    outcome.message.clone()
                };
                let fingerprint: Option<String> = match &outcome.fingerprint {
                    Some(fingerprint) => Some(fingerprint.clone()),
                    None => None,
                };
                rows.push(
                    Row { target: outcome.target.clone(), ok: outcome.ok, fingerprint, message },
                );
                i += 1;
            }
            assert(rows_view(rows@) =~= outcomes_view(results@).map_values(
                |outcome: OutcomeView| outcome_row(outcome, verb@),
            ));
            Output::Json { command: command.to_owned(), document: Document::Results { rows } }
        },
        OutputMode::Human => {
            let mut lines: Vec<Line> = Vec::new();
            let mut i: usize = 0;
            while i < results.len()
                invariant
                    i <= results@.len(),
                    lines@.len() == i,
                    forall|j: int|
                        0 <= j < i ==> (#[trigger] lines@[j])@ == outcome_line(
                            results@[j]@,
                            verb@,
                        ),
                decreases results@.len() - i,
            {
                let outcome: &Outcome = &results[i];
                let text: String = if outcome.ok {
                    join2(join3("gitway: ", verb, " ").as_str(), outcome.target.as_str())
                } else {
                    join2(
                        join3("gitway: ", outcome.target.as_str(), ": ").as_str(),
                        outcome.message.as_str(),
                    )
                };
                lines.push(stderr(text));
                i += 1;
            }
            assert(lines_view(lines@) =~= outcomes_view(results@).map_values(
                |outcome: OutcomeView| outcome_line(outcome, verb@),
            ));
            Output::Lines(lines)
        },
    }
}

/// What is printed for a single biometric failure.
pub open spec fn error_output(
    mode: OutputMode,
    command: Seq<char>,
    error: ErrorView,
) -> OutputView {
    match mode {
        OutputMode::Json => OutputView::Json {
            command,
            document: DocumentView::Error { exit_code: code_for(error), message: error.message() },
        },
        OutputMode::Human => OutputView::Lines(
            seq![
                LineView { stream: Stream::Stderr, text: "gitway: error: "@ + error.message() },
            ],
        ),
    }
}

/// A single line of output.
fn one_line(line: Line) -> (r: Output)
    ensures
        r@ == OutputView::Lines(seq![line@]),
{
    let mut lines: Vec<Line> = Vec::new();
    lines.push(line);
    assert(lines_view(lines@) =~= seq![line@]);
    Output::Lines(lines)
}

/// What is printed for a single [`BiometricError`] in the active mode, and its
/// exit code.
pub fn emit_error(error: &BiometricError, mode: OutputMode, command: &str) -> (r: (Output, u32))
    ensures
        r.0@ == error_output(mode, command@, error@),
        r.1 == code_for(error@),
{
    let code: u32 = exit_for(error);
    let message: String = error.to_string();
    let output: Output = match mode {
        OutputMode::Json => Output::Json {
            command: command.to_owned(),
            document: Document::Error { exit_code: code, message },
        },
        OutputMode::Human => one_line(stderr(join2("gitway: error: ", message.as_str()))),
    };
    (output, code)
}

/// What is printed where a requested operation has no backend, and its exit
/// code.
pub fn emit_unavailable(tier: Tier, mode: OutputMode, command: &str) -> (r: (Output, u32))
    ensures
        r.0@ == error_output(mode, command@, ErrorView::Unavailable(tier.guarantee())),
        r.1 == code_for(ErrorView::Unavailable(tier.guarantee())),
{
    let error: BiometricError = BiometricError::Unavailable(tier.description().to_owned());
    emit_error(&error, mode, command)
}

/// The line of an enrolled key.
pub open spec fn key_line(key: EnrolledKeyView) -> LineView {
    LineView {
        stream: Stream::Stdout,
        text: match key.comment {
            Some(comment) => key.fingerprint + " ("@ + comment + ")"@,
            None => key.fingerprint,
        },
    }
}

/// What is printed for a listing.
pub open spec fn list_output(
    mode: OutputMode,
    command: Seq<char>,
    enrolled: Seq<EnrolledKeyView>,
) -> OutputView {
    match mode {
        OutputMode::Json => OutputView::Json {
            command,
            document: DocumentView::Enrolled { count: enrolled.len() as usize, enrolled },
        },
        OutputMode::Human => if enrolled.len() == 0 {
            OutputView::Lines(
                seq![
                    LineView {
                        stream: Stream::Stderr,
                        text: "gitway: no keys are enrolled for biometric unlock"@,
                    },
                ],
            )
        } else {
            OutputView::Lines(enrolled.map_values(|key: EnrolledKeyView| key_line(key)))
        },
    }
}

/// The name of the listing command.
pub const LIST_COMMAND: &'static str = "gitway biometric list";

/// The name of the status command.
pub const STATUS_COMMAND: &'static str = "gitway biometric status";

/// The enrolled keys, or the error of the vault.
pub open spec fn listing_view(listing: Result<Vec<EnrolledKey>>) -> core::result::Result<
    Seq<EnrolledKeyView>,
    ErrorView,
> {
    match listing {
        Ok(keys) => Ok(keys_view(keys@)),
        Err(error) => Err(error@),
    }
}

/// `gitway biometric list`: what is printed for the listing of the vault, and
/// the exit code.
pub fn run_list(mode: OutputMode, listing: Result<Vec<EnrolledKey>>) -> (r: (Output, u32))
    ensures
        match listing_view(listing) {
            Ok(keys) => r.0@ == list_output(mode, LIST_COMMAND@, keys) && r.1 == EXIT_OK,
            Err(error) => r.0@ == error_output(mode, LIST_COMMAND@, error) && r.1 == code_for(
                error,
            ),
        },
{
    let enrolled: Vec<EnrolledKey> = match listing {
        Ok(keys) => keys,
        Err(error) => {
            return emit_error(&error, mode, LIST_COMMAND);
        },
    };
    let output: Output = match mode {
        OutputMode::Json => Output::Json {
            command: LIST_COMMAND.to_owned(),
            document: Document::Enrolled { count: enrolled.len(), enrolled },
        },
        OutputMode::Human => if enrolled.is_empty() {
            one_line(stderr("gitway: no keys are enrolled for biometric unlock".to_owned()))
        } else {
            let mut lines: Vec<Line> = Vec::new();
            let mut i: usize = 0;
            while i < enrolled.len()
                invariant
                    i <= enrolled@.len(),
                    lines@.len() == i,
                    forall|j: int|
                        0 <= j < i ==> (#[trigger] lines@[j])@ == key_line(enrolled@[j]@),
                decreases enrolled@.len() - i,
            {
                let key: &EnrolledKey = &enrolled[i];
                let text: String = match &key.comment {
                    Some(comment) => join2(
                        join3(key.fingerprint.as_str(), " (", comment.as_str()).as_str(),
                        ")",
                    ),
                    None => key.fingerprint.clone(),
                };
                lines.push(stdout(text));
                i += 1;
            }
            assert(lines_view(lines@) =~= keys_view(enrolled@).map_values(
                |key: EnrolledKeyView| key_line(key),
            ));
            Output::Lines(lines)
        },
    };
    (output, EXIT_OK)
}

/// The number of enrolled keys that a status shows: only an available backend is
/// asked, and an error of the listing leaves the number out.
pub open spec fn enrolled_count(
    available: bool,
    listing: Option<core::result::Result<Seq<EnrolledKeyView>, ErrorView>>,
) -> Option<usize> {
    match listing {
        Some(Ok(keys)) => if available {
            Some(keys.len() as usize)
        } else {
            None
        },
        _ => None,
    }
}

/// What is printed for a status.
pub open spec fn status_output(
    mode: OutputMode,
    available: bool,
    tier: Tier,
    count: Option<usize>,
) -> OutputView {
    match mode {
        OutputMode::Json => OutputView::Json {
            command: STATUS_COMMAND@,
            document: DocumentView::Status {
                available,
                tier: tier.token(),
                description: tier.guarantee(),
                enrolled_count: count,
            },
        },
        OutputMode::Human => {
            let head = seq![
                LineView {
                    stream: Stream::Stdout,
                    text: "available: "@ + (if available {
                        "yes"@
                    } else {
                        "no"@
                    }),
                },
                LineView { stream: Stream::Stdout, text: "tier:      "@ + tier.token() },
                LineView { stream: Stream::Stdout, text: "guarantee: "@ + tier.guarantee() },
            ];
            OutputView::Lines(
                match count {
                    Some(n) => head.push(
                        LineView {
                            stream: Stream::Stdout,
                            text: "enrolled:  "@ + decimal_text(n as nat),
                        },
                    ),
                    None => head,
                },
            )
        },
    }
}

/// `gitway biometric status`: what is printed for the state of the vault, and
/// the exit code.  The vault is asked for its listing only where it is
/// available, and no error of the listing makes the query fail.
pub fn run_status(
    mode: OutputMode,
    available: bool,
    tier: Tier,
    listing: Option<Result<Vec<EnrolledKey>>>,
) -> (r: (Output, u32))
    ensures
        r.0@ == status_output(
            mode,
            available,
            tier,
            enrolled_count(
                available,
                (match listing {
                    Some(listing) => Some(listing_view(listing)),
                    None => None,
                }),
            ),
        ),
        r.1 == EXIT_OK,
{
    let count: Option<usize> = match listing {
        Some(Ok(keys)) => if available {
            Some(keys.len())
        } else {
            None
        },
        _ => None,
    };
    let output: Output = match mode {
        OutputMode::Json => Output::Json {
            command: STATUS_COMMAND.to_owned(),
            document: Document::Status {
                available,
                tier: tier.as_str(),
                description: tier.description(),
                enrolled_count: count,
            },
        },
        OutputMode::Human => {
            let mut lines: Vec<Line> = Vec::new();
            lines.push(
                stdout(
                    join2(
                        "available: ",
                        if available {
                            "yes"
                        } else {
                            "no"
                        },
                    ),
                ),
            );
            lines.push(stdout(join2("tier:      ", tier.as_str())));
            lines.push(stdout(join2("guarantee: ", tier.description())));
            match count {
                Some(n) => {
                    lines.push(stdout(join2("enrolled:  ", decimal(n as u64).as_str())));
                },
                None => {},
            }
            assert(lines_view(lines@) =~= status_output(mode, available, tier, count)->Lines_0);
            Output::Lines(lines)
        },
    };
    (output, EXIT_OK)
}

/// What is printed for a batch has a line, or a row, for each of its results, in
/// their order: a success is reported by the word for it, and a failure by its
/// message.
pub proof fn every_result_is_reported(
    command: Seq<char>,
    results: Seq<OutcomeView>,
    verb: Seq<char>,
)
    ensures
        results_output(OutputMode::Human, command, results, verb) matches OutputView::Lines(lines)
            && lines.len() == results.len() && forall|i: int|
            0 <= i < results.len() ==> {
                &&& (#[trigger] lines[i]).stream == Stream::Stderr
                &&& results[i].ok ==> lines[i].text == "gitway: "@ + verb + " "@ + results[i].target
                &&& !results[i].ok ==> lines[i].text == "gitway: "@ + results[i].target + ": "@
                    + results[i].message
            },
        results_output(OutputMode::Json, command, results, verb) matches OutputView::Json {
            command: name,
            document: DocumentView::Results { rows },
        } && name == command && rows.len() == results.len() && forall|i: int|
            0 <= i < results.len() ==> {
                &&& (#[trigger] rows[i]).target == results[i].target
                &&& rows[i].ok == results[i].ok
                &&& rows[i].fingerprint == results[i].fingerprint
                &&& rows[i].message == if results[i].ok {
                    verb
                } else {
                    results[i].message
                }
            },
{
}

/// The exit code of a batch is that of its last failure: later successes do not
/// change it, and earlier failures do not count.
pub proof fn the_last_failure_counts(
    earlier: Seq<OutcomeView>,
    failure: OutcomeView,
    later: Seq<OutcomeView>,
)
    requires
        !failure.ok,
        forall|i: int| 0 <= i < later.len() ==> (#[trigger] later[i]).ok,
    ensures
        batch_exit(earlier.push(failure) + later) == failure.exit_code,
        batch_exit(later) == 0,
    decreases later.len(),
{
    let all = earlier.push(failure) + later;
    if later.len() == 0 {
        assert(all =~= earlier.push(failure));
    } else {
        assert(all.drop_last() =~= earlier.push(failure) + later.drop_last());
        assert(all.last() == later[later.len() - 1]);
        the_last_failure_counts(earlier, failure, later.drop_last());
    }
}

/// A success carries the fingerprint and the code of success, and a failure its
/// message and its own code.
pub proof fn outcomes_say_what_happened(target: Seq<char>, text: Seq<char>, code: u32)
    ensures
        succeeded(target, text).ok,
        succeeded(target, text).target == target,
        succeeded(target, text).fingerprint == Some(text),
        succeeded(target, text).message.len() == 0,
        succeeded(target, text).exit_code == 0,
        !failed(target, text, code).ok,
        failed(target, text, code).target == target,
        failed(target, text, code).fingerprint is None,
        failed(target, text, code).message == text,
        failed(target, text, code).exit_code == code,
{
}

/// An error is printed by its message on standard error, or as a document with its
/// message and its exit code.
pub proof fn errors_are_reported(command: Seq<char>, error: ErrorView)
    ensures
        error_output(OutputMode::Human, command, error) matches OutputView::Lines(lines)
            && lines.len() == 1 && lines[0].stream == Stream::Stderr && lines[0].text
            == "gitway: error: "@ + error.message(),
        error_output(OutputMode::Json, command, error) matches OutputView::Json {
            command: name,
            document: DocumentView::Error { exit_code, message },
        } && name == command && exit_code == code_for(error) && message == error.message(),
{
}

/// A listing shows every enrolled key, in their order, by its fingerprint and its
/// comment where it has one; where there is none it says so, on standard error.
pub proof fn every_enrolled_key_is_listed(command: Seq<char>, enrolled: Seq<EnrolledKeyView>)
    requires
        enrolled.len() <= usize::MAX,
    ensures
        list_output(OutputMode::Human, command, enrolled) matches OutputView::Lines(lines) && {
            &&& enrolled.len() == 0 ==> lines.len() == 1 && lines[0].stream == Stream::Stderr
                && lines[0].text == "gitway: no keys are enrolled for biometric unlock"@
            &&& enrolled.len() > 0 ==> lines.len() == enrolled.len() && forall|i: int|
                0 <= i < enrolled.len() ==> {
                    &&& (#[trigger] lines[i]).stream == Stream::Stdout
                    &&& enrolled[i].comment is None ==> lines[i].text == enrolled[i].fingerprint
                    &&& enrolled[i].comment matches Some(comment) ==> lines[i].text
                        == enrolled[i].fingerprint + " ("@ + comment + ")"@
                }
        },
        list_output(OutputMode::Json, command, enrolled) matches OutputView::Json {
            command: name,
            document: DocumentView::Enrolled { count, enrolled: keys },
        } && name == command && count == enrolled.len() && keys == enrolled,
{
}

/// A status says whether there is a backend, of which tier it is and what that
/// guarantees; it shows the number of enrolled keys exactly where an available
/// backend could list them.
pub proof fn a_status_shows_the_backend(
    available: bool,
    tier: Tier,
    listing: Option<core::result::Result<Seq<EnrolledKeyView>, ErrorView>>,
)
    requires
        listing matches Some(Ok(keys)) ==> keys.len() <= usize::MAX,
    ensures
        ({
            let count = enrolled_count(available, listing);
            &&& count is Some <==> available && (listing matches Some(reply) && reply is Ok)
            &&& count matches Some(n) ==> (listing matches Some(Ok(keys)) && n == keys.len())
            &&& status_output(OutputMode::Json, available, tier, count)
                matches OutputView::Json {
                command,
                document: DocumentView::Status {
                    available: shown,
                    tier: token,
                    description,
                    enrolled_count: number,
                },
            } && command == "gitway biometric status"@ && shown == available && token
                == tier.token() && description == tier.guarantee() && number == count
            &&& status_output(OutputMode::Human, available, tier, count)
                matches OutputView::Lines(lines) && {
                &&& lines.len() == if count is Some {
                    4int
                } else {
                    3
                }
                &&& forall|i: int|
                    0 <= i < lines.len() ==> (#[trigger] lines[i]).stream == Stream::Stdout
                &&& available ==> lines[0].text == "available: "@ + "yes"@
                &&& !available ==> lines[0].text == "available: "@ + "no"@
                &&& lines[1].text == "tier:      "@ + tier.token()
                &&& lines[2].text == "guarantee: "@ + tier.guarantee()
                &&& count matches Some(n) ==> lines[3].text == "enrolled:  "@ + decimal_text(
                    n as nat,
                )
            }
        }),
{
}

/// Listing the enrolled keys succeeds with their listing, and fails with the error
/// of the vault; a status query never fails.
pub proof fn listing_fails_with_the_vault(
    mode: OutputMode,
    listing: Result<Vec<EnrolledKey>>,
    shown: (Output, u32),
    status: (Output, u32),
    available: bool,
    tier: Tier,
)
    requires
        call_ensures(run_list, (mode, listing), shown),
        call_ensures(run_status, (mode, available, tier, Some(listing)), status),
    ensures
        status.1 == 0,
        listing matches Ok(keys) ==> shown.1 == 0 && shown.0@ == list_output(
            mode,
            "gitway biometric list"@,
            keys_view(keys@),
        ),
        listing matches Err(error) ==> shown.1 == code_for(error@) && shown.0@ == error_output(
            mode,
            "gitway biometric list"@,
            error@,
        ),
{
}

/// A line goes where it is sent, with its text unchanged.
pub proof fn lines_keep_their_text(text: String, shown: Line, warned: Line)
    requires
        call_ensures(stdout, (text,), shown),
        call_ensures(stderr, (text,), warned),
    ensures
        shown@.stream == Stream::Stdout && shown@.text == text@,
        warned@.stream == Stream::Stderr && warned@.text == text@,
{
}

/// An operation without a backend is refused with the guarantee of the tier as the
/// reason, and with the code of input that was required.
pub proof fn a_missing_backend_is_reported(
    tier: Tier,
    mode: OutputMode,
    command: &str,
    r: (Output, u32),
)
    requires
        call_ensures(emit_unavailable, (tier, mode, command), r),
    ensures
        r.1 == 78,
        match r.0@ {
            OutputView::Lines(lines) => mode == OutputMode::Human && lines.len() == 1
                && lines[0].text == "gitway: error: "@ + ("biometric unlock is unavailable: "@
                + tier.guarantee()),
            OutputView::Json { command: name, document } => mode == OutputMode::Json && name
                == command@ && (document matches DocumentView::Error { exit_code, message }
                && exit_code == 78 && message == "biometric unlock is unavailable: "@
                + tier.guarantee()),
        },
{
}

/// What is printed is seen as it is.
pub proof fn outputs_are_seen_as_they_are(output: Output, outcome: Outcome)
    ensures
        match output {
            Output::Lines(lines) => output@ matches OutputView::Lines(list) && list.len()
                == lines@.len() && forall|i: int|
                0 <= i < list.len() ==> (#[trigger] list[i]).stream == lines@[i].stream
                    && list[i].text == lines@[i].text@,
            Output::Json { command, document } => output@ matches OutputView::Json {
                command: name,
                document: data,
            } && name == command@ && match document {
                Document::Results { rows } => data matches DocumentView::Results { rows: list }
                    && list.len() == rows@.len() && forall|i: int|
                    0 <= i < list.len() ==> {
                        &&& (#[trigger] list[i]).target == rows@[i].target@
                        &&& list[i].ok == rows@[i].ok
                        &&& list[i].message == rows@[i].message@
                        &&& list[i].fingerprint == optional_text(rows@[i].fingerprint)
                    },
                Document::Error { exit_code, message } => data == (DocumentView::Error {
                    exit_code,
                    message: message@,
                }),
                Document::Enrolled { count, enrolled } => data == (DocumentView::Enrolled {
                    count,
                    enrolled: keys_view(enrolled@),
                }),
                Document::Status { available, tier, description, enrolled_count } => data == (
                DocumentView::Status {
                    available,
                    tier: tier@,
                    description: description@,
                    enrolled_count,
                }),
            },
        },
        outcome@.target == outcome.target@,
        outcome@.ok == outcome.ok,
        outcome@.message == outcome.message@,
        outcome@.exit_code == outcome.exit_code,
        outcome.fingerprint matches Some(fingerprint) ==> outcome@.fingerprint == Some(
            fingerprint@,
        ),
        outcome.fingerprint is None ==> outcome@.fingerprint is None,
{
}

} // verus!
