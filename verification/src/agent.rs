//! What `gitway-add` shows and asks when it talks to the agent: listing,
//! removing, locking and unlocking.

use vstd::prelude::*;

use crate::errors::{CliError, CliErrorView, ReadFailure, EXIT_GENERAL, EXIT_OK};
use crate::files::{content_text, parse_message, Content, ContentView};
use crate::keys::{
    private_key_failure, private_key_fingerprint, public_key_algorithm, public_key_failure,
    public_key_fingerprint, public_key_line, HashAlg, PrivateKey, PublicKey,
};
use crate::report::{lines_view, stdout, Line, LineView, Stream};
use crate::secret::Secret;
use crate::text::{ascii_upper, join2, join3, same, trim, trimmed, upper_char};

verus! {

/// An identity that the agent holds.
pub struct Identity {
    pub key: PublicKey,
    pub comment: String,
}

/// The texts of an [`Identity`].
pub struct IdentityView {
    pub key: Seq<char>,
    pub comment: Seq<char>,
}

impl View for Identity {
    type V = IdentityView;

    open spec fn view(&self) -> IdentityView {
        IdentityView { key: self.key@, comment: self.comment@ }
    }
}

/// An identity that the agent holds, or why its key has no text form.
pub type Held = Result<Identity, CliError>;

/// The texts of a list of identities.
pub open spec fn identities_view(ids: Seq<Held>) -> Seq<Result<IdentityView, CliErrorView>> {
    ids.map_values(
        |id: Held|
            match id {
                Ok(id) => Ok(id@),
                Err(error) => Err(error@),
            },
    )
}

/// The line of an identity: its public key in full, or its fingerprint, comment
/// and algorithm in capitals.  The names of algorithms are ASCII.
pub open spec fn identity_text(id: IdentityView, full: bool, hash: HashAlg) -> Result<
    Seq<char>,
    CliErrorView,
> {
    if full {
        match public_key_line(id.key, id.comment) {
            Ok(line) => Ok(line),
            Err(why) => Err(CliErrorView::Signing("serialize failed: "@ + why)),
        }
    } else {
        Ok(
            public_key_fingerprint(id.key, hash == HashAlg::Sha512) + " "@ + id.comment + " ("@
                + public_key_algorithm(id.key).map_values(|c: char| upper_char(c)) + ")"@,
        )
    }
}

/// The line of an identity, or the error of one without a text form.
pub open spec fn held_text(
    id: Result<IdentityView, CliErrorView>,
    full: bool,
    hash: HashAlg,
) -> Result<Seq<char>, CliErrorView> {
    match id {
        Ok(id) => identity_text(id, full, hash),
        Err(error) => Err(error),
    }
}

/// The lines of a list of identities, and the first error.  A full listing ends
/// with it; a listing of fingerprints goes on, so that none of them is missing.
pub open spec fn identity_lines(
    ids: Seq<Result<IdentityView, CliErrorView>>,
    full: bool,
    hash: HashAlg,
) -> (Seq<LineView>, Option<CliErrorView>)
    decreases ids.len(),
{
    if ids.len() == 0 {
        (Seq::empty(), None)
    } else {
        let rest = identity_lines(ids.drop_first(), full, hash);
        match held_text(ids[0], full, hash) {
            Err(error) => if full {
                (Seq::empty(), Some(error))
            } else {
                (rest.0, Some(error))
            },
            Ok(text) => (seq![LineView { stream: Stream::Stdout, text }] + rest.0, rest.1),
        }
    }
}

/// What is printed for the identities of the agent, and the exit code or the
/// error.  An agent without identities is not an error, but no success either.
pub open spec fn listing(
    ids: Seq<Result<IdentityView, CliErrorView>>,
    full: bool,
    hash: HashAlg,
) -> (Seq<LineView>, Result<u32, CliErrorView>) {
    if ids.len() == 0 {
        (
            seq![LineView { stream: Stream::Stdout, text: "The agent has no identities."@ }],
            Ok(EXIT_GENERAL),
        )
    } else {
        let lines = identity_lines(ids, full, hash);
        (
            lines.0,
            match lines.1 {
                Some(error) => Err(error),
                None => Ok(EXIT_OK),
            },
        )
    }
}

/// The line of an identity.
fn identity_line(id: &Identity, full: bool, hash: HashAlg) -> (r: Result<Line, CliError>)
    ensures
        (match r {
            Ok(line) => Ok(line@),
            Err(error) => Err(error@),
        }) == (match identity_text(id@, full, hash) {
            Ok(text) => Ok(LineView { stream: Stream::Stdout, text }),
            Err(error) => Err(error),
        }),
{
    if full {
        match id.key.to_openssh(id.comment.as_str()) {
            Ok(line) => Ok(stdout(line)),
            Err(why) => Err(CliError::Signing(join2("serialize failed: ", why.as_str()))),
        }
    } else {
        let head: String = join3(id.key.fingerprint(hash).as_str(), " ", id.comment.as_str());
        let algorithm: String = ascii_upper(id.key.algorithm().as_str());
        let text: String = join2(join3(head.as_str(), " (", algorithm.as_str()).as_str(), ")");
        Ok(stdout(text))
    }
}

/// Shows the identities of the agent: what is printed, and the exit code or the
/// first error.
pub fn list(ids: Vec<Held>, full: bool, hash: HashAlg) -> (r: (Vec<Line>, Result<u32, CliError>))
    ensures
        lines_view(r.0@) == listing(identities_view(ids@), full, hash).0,
        (match r.1 {
            Ok(code) => Ok(code),
            Err(error) => Err(error@),
        }) == listing(identities_view(ids@), full, hash).1,
{
    let mut lines: Vec<Line> = Vec::new();
    let ghost all = identities_view(ids@);
    if ids.is_empty() {
        lines.push(stdout("The agent has no identities.".to_owned()));
        assert(lines_view(lines@) =~= listing(all, full, hash).0);
        return (lines, Ok(EXIT_GENERAL));
    }
    let mut failure: Option<CliError> = None;
    let mut left: Vec<Held> = ids;
    assert(all.skip(0) =~= all);
    assert(lines_view(lines@) + identity_lines(all, full, hash).0 =~= identity_lines(
        all,
        full,
        hash,
    ).0);
    while !left.is_empty()
        invariant
            all == identities_view(ids@),
            identity_lines(all, full, hash).0 == lines_view(lines@) + identity_lines(
                identities_view(left@),
                full,
                hash,
            ).0,
            identity_lines(all, full, hash).1 == (match failure {
                Some(error) => Some(error@),
                None => identity_lines(identities_view(left@), full, hash).1,
            }),
            full ==> failure is None,
            all.len() > 0,
        decreases left@.len(),
    {
        let ghost rest = identities_view(left@);
        let ghost earlier = lines_view(lines@);
        let held: Held = left.remove(0);
        assert(rest.drop_first() =~= identities_view(left@));
        let line: Result<Line, CliError> = match held {
            Ok(id) => identity_line(&id, full, hash),
            Err(error) => Err(error),
        };
        match line {
            Ok(line) => {
                let ghost view = line@;
                lines.push(line);
                assert(lines_view(lines@) =~= earlier.push(view));
                assert(earlier + (seq![view] + identity_lines(rest.drop_first(), full, hash).0)
                    =~= lines_view(lines@) + identity_lines(rest.drop_first(), full, hash).0);
            },
            Err(error) => {
                if full {
                    assert(earlier + Seq::<LineView>::empty() =~= earlier);
                    return (lines, Err(error));
                }
                if failure.is_none() {
                    failure = Some(error);
                }
            },
        }
    }
    assert(lines_view(lines@) + Seq::<LineView>::empty() =~= lines_view(lines@));
    match failure {
        Some(error) => (lines, Err(error)),
        None => (lines, Ok(EXIT_OK)),
    }
}

/// The key that a file names for removal: a public key, or a private key whose
/// public half is meant.
pub enum Removal {
    Public(PublicKey),
    Private(PrivateKey),
}

/// A [`Removal`] with its text.
pub enum RemovalView {
    Public(Seq<char>),
    Private(Seq<char>),
}

impl View for Removal {
    type V = RemovalView;

    open spec fn view(&self) -> RemovalView {
        match self {
            Removal::Public(key) => RemovalView::Public(key@),
            Removal::Private(key) => RemovalView::Private(key@),
        }
    }
}

impl RemovalView {
    /// The SHA-256 fingerprint of the key.
    pub open spec fn fingerprint(self) -> Seq<char> {
        match self {
            RemovalView::Public(text) => public_key_fingerprint(text, false),
            RemovalView::Private(pem) => private_key_fingerprint(pem),
        }
    }
}

/// The key that the content of a file names for removal.
pub open spec fn removal_in(path: Seq<char>, content: ContentView) -> Result<
    RemovalView,
    CliErrorView,
> {
    match content {
        Err(failure) => Err(CliErrorView::Unreadable(failure)),
        Ok(raw) => if public_key_failure(trimmed(raw)) is None {
            Ok(RemovalView::Public(trimmed(raw)))
        } else {
            match private_key_failure(raw) {
                None => Ok(RemovalView::Private(raw)),
                Some(why) => Err(CliErrorView::InvalidConfig(parse_message(path, why))),
            }
        },
    }
}

/// The key that the content of a file names for removal.
pub fn removal(path: &str, content: Content) -> (r: Result<Removal, CliError>)
    ensures
        (match r {
            Ok(removal) => Ok(removal@),
            Err(error) => Err(error@),
        }) == removal_in(path@, content_text(content)),
{
    let raw: String = match content {
        Ok(raw) => raw,
        Err(failure) => {
            return Err(CliError::Unreadable(failure));
        },
    };
    match PublicKey::from_openssh(trim(raw.as_str())) {
        Ok(key) => Ok(Removal::Public(key)),
        Err(_) => match PrivateKey::from_openssh(raw.as_str()) {
            Ok(key) => Ok(Removal::Private(key)),
            Err(why) => Err(
                CliError::InvalidConfig(
                    join2(join3("cannot parse ", path, ": ").as_str(), why.as_str()),
                ),
            ),
        },
    }
}

/// What is printed once the key was removed.
pub fn removed_line(removal: &Removal) -> (r: Line)
    ensures
        r@ == (LineView {
            stream: Stream::Stdout,
            text: "Identity removed: "@ + removal@.fingerprint(),
        }),
{
    let fingerprint: String = match removal {
        Removal::Public(key) => key.fingerprint(HashAlg::Sha256),
        Removal::Private(key) => key.fingerprint(),
    };
    stdout(join2("Identity removed: ", fingerprint.as_str()))
}

/// What is printed once all keys were removed.
pub fn all_removed_line() -> (r: Line)
    ensures
        r@ == (LineView { stream: Stream::Stdout, text: "All identities removed."@ }),
{
    stdout("All identities removed.".to_owned())
}

/// What is due when the agent is locked or unlocked.
#[derive(Debug, Clone, Copy, PartialEq, Eq, Structural)]
pub enum LockStep {
    /// Ask for the passphrase.
    Enter,
    /// Ask for the passphrase once more.
    Confirm,
    /// Lock or unlock the agent with the passphrase.
    Apply,
    /// The passphrases differ, which ends it.
    Refused,
}

/// The locking or unlocking of the agent under way.
pub struct LockRun {
    lock: bool,
    step: LockStep,
    passphrase: Option<Secret>,
}

/// A [`LockRun`] with its text.
pub struct LockRunView {
    pub lock: bool,
    pub step: LockStep,
    pub passphrase: Option<Seq<char>>,
}

impl View for LockRun {
    type V = LockRunView;

    closed spec fn view(&self) -> LockRunView {
        LockRunView {
            lock: self.lock,
            step: self.step,
            passphrase: match self.passphrase {
                Some(passphrase) => Some(passphrase@),
                None => None,
            },
        }
    }
}

/// A run at its beginning.
pub open spec fn lock_begun(lock: bool) -> LockRunView {
    LockRunView { lock, step: LockStep::Enter, passphrase: None }
}

/// A run after a passphrase was typed.  To lock the agent it has to be typed
/// twice.
pub open spec fn lock_after(run: LockRunView, typed: Seq<char>) -> LockRunView {
    match run.step {
        LockStep::Enter => LockRunView {
            step: if run.lock {
                LockStep::Confirm
            } else {
                LockStep::Apply
            },
            passphrase: Some(typed),
            ..run
        },
        LockStep::Confirm => if run.passphrase == Some(typed) {
            LockRunView { step: LockStep::Apply, ..run }
        } else {
            LockRunView { step: LockStep::Refused, passphrase: None, ..run }
        },
        _ => run,
    }
}

/// The prompt of a step.
pub open spec fn lock_prompt(lock: bool, step: LockStep) -> Seq<char> {
    if !lock {
        "Enter unlock passphrase: "@
    } else if step == LockStep::Enter {
        "Enter lock passphrase: "@
    } else {
        "Confirm lock passphrase: "@
    }
}

impl LockRun {
    #[verifier::type_invariant]
    spec fn is_proper(self) -> bool {
        self.passphrase is Some <==> (self.step == LockStep::Confirm || self.step == LockStep::Apply)
    }

    /// Begins to lock the agent, or to unlock it.
    pub fn start(lock: bool) -> (r: LockRun)
        ensures
            r@ == lock_begun(lock),
    {
        LockRun { lock, step: LockStep::Enter, passphrase: None }
    }

    /// What is due.
    pub fn step(&self) -> (r: LockStep)
        ensures
            r == self@.step,
    {
        self.step
    }

    /// The prompt for the passphrase that is due.
    pub fn prompt(&self) -> (r: &'static str)
        ensures
            r@ == lock_prompt(self@.lock, self@.step),
    {
        if !self.lock {
            "Enter unlock passphrase: "
        } else if self.step == LockStep::Enter {
            "Enter lock passphrase: "
        } else {
            "Confirm lock passphrase: "
        }
    }

    /// Takes a passphrase that was typed.  Where none is due it is ignored.
    pub fn typed(self, typed: Secret) -> (r: LockRun)
        ensures
            r@ == lock_after(self@, typed@),
    {
        proof {
            use_type_invariant(&self);
        }
        match self.step {
            LockStep::Enter => {
                let step: LockStep = if self.lock {
                    LockStep::Confirm
                } else {
                    LockStep::Apply
                };
                LockRun { lock: self.lock, step, passphrase: Some(typed) }
            },
            LockStep::Confirm => {
                let equal: bool = match &self.passphrase {
                    Some(first) => same(first.as_str(), typed.as_str()),
                    None => false,
                };
                if equal {
                    LockRun { lock: self.lock, step: LockStep::Apply, passphrase: self.passphrase }
                } else {
                    LockRun { lock: self.lock, step: LockStep::Refused, passphrase: None }
                }
            },
            _ => self,
        }
    }

    /// The passphrase for the agent, once it is known.
    pub fn passphrase(&self) -> (r: Option<&Secret>)
        ensures
            match r {
                Some(passphrase) => self@.step == LockStep::Apply && self@.passphrase == Some(
                    passphrase@,
                ),
                None => self@.step != LockStep::Apply,
            },
    {
        proof {
            use_type_invariant(self);
        }
        if self.step != LockStep::Apply {
            return None;
        }
        match &self.passphrase {
            Some(passphrase) => Some(passphrase),
            None => None,
        }
    }

    /// The error of two passphrases that differ.
    pub fn refusal(&self) -> (r: Option<CliError>)
        ensures
            match r {
                Some(error) => self@.step == LockStep::Refused && error@
                    == CliErrorView::InvalidConfig("passphrases did not match"@),
                None => self@.step != LockStep::Refused,
            },
    {
        if self.step == LockStep::Refused {
            Some(CliError::InvalidConfig("passphrases did not match".to_owned()))
        } else {
            None
        }
    }

    /// What is printed once the agent was locked or unlocked.
    pub fn done_line(&self) -> (r: Line)
        ensures
            r@ == (LineView {
                stream: Stream::Stdout,
                text: if self@.lock {
                    "Agent locked."@
                } else {
                    "Agent unlocked."@
                },
            }),
    {
        if self.lock {
            stdout("Agent locked.".to_owned())
        } else {
            stdout("Agent unlocked.".to_owned())
        }
    }
}

/// The agent is locked with a passphrase exactly if that passphrase was typed
/// twice in a row.
pub proof fn locking_takes_the_same_passphrase_twice(first: Seq<char>, second: Seq<char>)
    ensures
        ({
            let run = lock_after(lock_after(lock_begun(true), first), second);
            &&& run.step == LockStep::Apply <==> first == second
            &&& run.step == LockStep::Refused <==> first != second
            &&& run.step == LockStep::Apply ==> run.passphrase == Some(first)
        }),
{
}

/// Unlocking takes the passphrase as it was typed, once.
pub proof fn unlocking_takes_one_passphrase(typed: Seq<char>)
    ensures
        lock_after(lock_begun(false), typed) == (LockRunView {
            lock: false,
            step: LockStep::Apply,
            passphrase: Some(typed),
        }),
{
}

/// The number of identities that have a text form.
pub open spec fn shown(ids: Seq<Result<IdentityView, CliErrorView>>) -> nat
    decreases ids.len(),
{
    if ids.len() == 0 {
        0
    } else {
        shown(ids.drop_first()) + if ids[0] is Ok {
            1nat
        } else {
            0
        }
    }
}

/// A listing without an error shows every identity, one line each.  A listing of
/// fingerprints shows every identity that has a text form, whatever the others
/// are, and has no error where all of them have one.
pub proof fn a_listing_shows_every_identity(
    ids: Seq<Result<IdentityView, CliErrorView>>,
    full: bool,
    hash: HashAlg,
)
    ensures
        identity_lines(ids, full, hash).1 is None ==> identity_lines(ids, full, hash).0.len()
            == ids.len(),
        !full ==> identity_lines(ids, full, hash).0.len() == shown(ids),
        !full ==> (identity_lines(ids, full, hash).1 is None <==> shown(ids) == ids.len()),
        shown(ids) <= ids.len(),
    decreases ids.len(),
{
    if ids.len() > 0 {
        a_listing_shows_every_identity(ids.drop_first(), full, hash);
    }
}

/// The identity of a file can be removed exactly if the file can be read and its
/// text, without the white space around it, is a public key, or the text is a
/// private key, encrypted or not.  What is removed is the key in the file, and the
/// path matters to nothing but the message of a file without a key.
pub proof fn either_half_of_a_key_can_be_removed(
    path: Seq<char>,
    other: Seq<char>,
    content: ContentView,
)
    ensures
        removal_in(path, content) is Ok <==> (content matches Ok(raw) && (public_key_failure(
            trimmed(raw),
        ) is None || private_key_failure(raw) is None)),
        removal_in(path, content) matches Ok(key) ==> {
            &&& removal_in(other, content) == removal_in(path, content)
            &&& content matches Ok(raw) && key.fingerprint() == if public_key_failure(
                trimmed(raw),
            ) is None {
                public_key_fingerprint(trimmed(raw), false)
            } else {
                private_key_fingerprint(raw)
            }
        },
        removal_in(path, content) matches Err(error) ==> match content {
            Err(failure) => error == CliErrorView::Unreadable(failure),
            Ok(raw) => private_key_failure(raw) matches Some(why) && error
                == CliErrorView::InvalidConfig("cannot parse "@ + path + ": "@ + why),
        },
{
}

/// The key that is found in a file for removal is the one that is reported as
/// removed, by its fingerprint.
pub proof fn the_removed_key_is_reported(
    path: &str,
    raw: String,
    key: Removal,
    line: Line,
)
    requires
        call_ensures(removal, (path, Ok::<String, ReadFailure>(raw)), Ok::<Removal, CliError>(key)),
        call_ensures(removed_line, (&key,), line),
    ensures
        line@.stream == Stream::Stdout,
        public_key_failure(trimmed(raw@)) is None ==> line@.text == "Identity removed: "@
            + public_key_fingerprint(trimmed(raw@), false),
        public_key_failure(trimmed(raw@)) is Some ==> private_key_failure(raw@) is None
            && line@.text == "Identity removed: "@ + private_key_fingerprint(raw@),
{
}

/// The line of an identity in full is its public key line; any other is its
/// fingerprint, by the hash that was asked for, its comment and its algorithm.
pub proof fn identities_are_shown_as_asked(id: IdentityView, hash: HashAlg)
    ensures
        identity_text(id, true, hash) is Ok <==> public_key_line(id.key, id.comment) is Ok,
        public_key_line(id.key, id.comment) matches Ok(line) ==> identity_text(id, true, hash)
            == Ok::<Seq<char>, CliErrorView>(line),
        public_key_line(id.key, id.comment) matches Err(why) ==> identity_text(id, true, hash)
            == Err::<Seq<char>, CliErrorView>(CliErrorView::Signing("serialize failed: "@ + why)),
        identity_text(id, false, HashAlg::Sha512) matches Ok(text) && public_key_fingerprint(
            id.key,
            true,
        ).is_prefix_of(text),
        identity_text(id, false, HashAlg::Sha256) matches Ok(text) && public_key_fingerprint(
            id.key,
            false,
        ).is_prefix_of(text),
        identity_text(id, false, hash) matches Ok(text) && exists|large: Seq<char>|
            {
                &&& #[trigger] large.len() == public_key_algorithm(id.key).len()
                &&& forall|i: int|
                    0 <= i < large.len() ==> #[trigger] large[i] == upper_char(
                        public_key_algorithm(id.key)[i],
                    )
                &&& text == public_key_fingerprint(id.key, hash == HashAlg::Sha512) + " "@
                    + id.comment + " ("@ + large + ")"@
            },
{
    let small = public_key_fingerprint(id.key, false);
    let long = public_key_fingerprint(id.key, true);
    assert(small =~= identity_text(id, false, HashAlg::Sha256)->Ok_0.subrange(
        0,
        small.len() as int,
    ));
    assert(long =~= identity_text(id, false, HashAlg::Sha512)->Ok_0.subrange(0, long.len() as int));
    let large = public_key_algorithm(id.key).map_values(|c: char| upper_char(c));
    assert(large.len() == public_key_algorithm(id.key).len());
}

/// The lines of a listing are those of its identities, in their order and on
/// standard output; its error is that of the first identity that has one.
pub proof fn every_line_is_that_of_an_identity(
    ids: Seq<Result<IdentityView, CliErrorView>>,
    full: bool,
    hash: HashAlg,
)
    ensures
        ({
            let lines = identity_lines(ids, full, hash);
            &&& lines.1 is None ==> forall|i: int|
                0 <= i < ids.len() ==> Ok::<Seq<char>, CliErrorView>((#[trigger] lines.0[i]).text)
                    == held_text(ids[i], full, hash)
            &&& forall|i: int|
                0 <= i < lines.0.len() ==> (#[trigger] lines.0[i]).stream == Stream::Stdout
            &&& lines.1 matches Some(error) ==> exists|i: int|
                {
                    &&& 0 <= i < ids.len()
                    &&& #[trigger] held_text(ids[i], full, hash) == Err::<Seq<char>, CliErrorView>(
                        error,
                    )
                    &&& full ==> lines.0.len() == i && forall|j: int|
                        0 <= j < i ==> Ok::<Seq<char>, CliErrorView>((#[trigger] lines.0[j]).text)
                            == held_text(ids[j], full, hash)
                    &&& forall|j: int|
                        0 <= j < i ==> #[trigger] held_text(ids[j], full, hash) is Ok
                }
        }),
    decreases ids.len(),
{
    if ids.len() > 0 {
        let rest = ids.drop_first();
        every_line_is_that_of_an_identity(rest, full, hash);
        a_listing_shows_every_identity(rest, full, hash);
        let lines = identity_lines(ids, full, hash);
        let later = identity_lines(rest, full, hash);
        match held_text(ids[0], full, hash) {
            Ok(text) => {
                assert forall|i: int| 0 <= i < lines.0.len() implies (
                #[trigger] lines.0[i]).stream == Stream::Stdout by {
                    if i > 0 {
                        assert(lines.0[i] == later.0[i - 1]);
                    }
                }
                if lines.1 is None {
                    assert forall|i: int| 0 <= i < ids.len() implies Ok::<Seq<char>, CliErrorView>(
                        (#[trigger] lines.0[i]).text,
                    ) == held_text(ids[i], full, hash) by {
                        if i > 0 {
                            assert(lines.0[i] == later.0[i - 1]);
                            assert(rest[i - 1] == ids[i]);
                        }
                    }
                } else {
                    let error = lines.1->0;
                    let k = choose|i: int|
                        {
                            &&& 0 <= i < rest.len()
                            &&& #[trigger] held_text(rest[i], full, hash) == Err::<
                                Seq<char>,
                                CliErrorView,
                            >(error)
                            &&& full ==> later.0.len() == i && forall|j: int|
                                0 <= j < i ==> Ok::<Seq<char>, CliErrorView>(
                                    (#[trigger] later.0[j]).text,
                                ) == held_text(rest[j], full, hash)
                            &&& forall|j: int|
                                0 <= j < i ==> #[trigger] held_text(rest[j], full, hash) is Ok
                        };
                    assert(rest[k] == ids[k + 1]);
                    assert(held_text(ids[k + 1], full, hash) == Err::<Seq<char>, CliErrorView>(
                        error,
                    ));
                    assert forall|j: int| 0 <= j < k + 1 implies #[trigger] held_text(
                        ids[j],
                        full,
                        hash,
                    ) is Ok by {
                        if j > 0 {
                            assert(rest[j - 1] == ids[j]);
                        }
                    }
                    if full {
                        assert forall|j: int| 0 <= j < k + 1 implies Ok::<Seq<char>, CliErrorView>(
                            (#[trigger] lines.0[j]).text,
                        ) == held_text(ids[j], full, hash) by {
                            if j > 0 {
                                assert(lines.0[j] == later.0[j - 1]);
                                assert(rest[j - 1] == ids[j]);
                            }
                        }
                    }
                }
            },
            Err(error) => {
                assert(held_text(ids[0], full, hash) == Err::<Seq<char>, CliErrorView>(error));
            },
        }
    }
}

/// A listing of fingerprints that is made of two parts shows the lines of the one
/// and then those of the other.
pub proof fn listings_add_up(
    some: Seq<Result<IdentityView, CliErrorView>>,
    others: Seq<Result<IdentityView, CliErrorView>>,
    hash: HashAlg,
)
    ensures
        identity_lines(some + others, false, hash).0 == identity_lines(some, false, hash).0
            + identity_lines(others, false, hash).0,
        identity_lines(some + others, false, hash).1 is None <==> identity_lines(
            some,
            false,
            hash,
        ).1 is None && identity_lines(others, false, hash).1 is None,
    decreases some.len(),
{
    let all = some + others;
    if some.len() == 0 {
        assert(all =~= others);
        assert(Seq::<LineView>::empty() + identity_lines(others, false, hash).0 =~= identity_lines(
            others,
            false,
            hash,
        ).0);
    } else {
        assert(all.drop_first() =~= some.drop_first() + others);
        assert(all[0] == some[0]);
        listings_add_up(some.drop_first(), others, hash);
        assert(identity_lines(all, false, hash).0 =~= identity_lines(some, false, hash).0
            + identity_lines(others, false, hash).0);
    }
}

/// The exit code of a listing: an agent that holds nothing says so, with the code
/// of a failure; any other listing succeeds, or ends with the error of an identity.
pub proof fn an_empty_agent_says_so(
    ids: Seq<Result<IdentityView, CliErrorView>>,
    full: bool,
    hash: HashAlg,
)
    ensures
        ids.len() == 0 ==> {
            &&& listing(ids, full, hash).0.len() == 1
            &&& listing(ids, full, hash).0[0].text == "The agent has no identities."@
            &&& listing(ids, full, hash).0[0].stream == Stream::Stdout
        },
        ids.len() > 0 ==> listing(ids, full, hash).0 == identity_lines(ids, full, hash).0,
        match listing(ids, full, hash).1 {
            Ok(code) => if ids.len() == 0 {
                code == 1
            } else {
                code == 0 && identity_lines(ids, full, hash).1 is None
            },
            Err(error) => ids.len() > 0 && identity_lines(ids, full, hash).1 == Some(error),
        },
{
}

/// A run after a sequence of passphrases was typed.
pub open spec fn lock_run(run: LockRunView, typed: Seq<Seq<char>>) -> LockRunView
    decreases typed.len(),
{
    if typed.len() == 0 {
        run
    } else {
        lock_run(lock_after(run, typed[0]), typed.drop_first())
    }
}

proof fn lemma_lock_run_is_over(run: LockRunView, typed: Seq<Seq<char>>)
    requires
        run.step == LockStep::Apply || run.step == LockStep::Refused,
    ensures
        lock_run(run, typed) == run,
    decreases typed.len(),
{
    if typed.len() > 0 {
        lemma_lock_run_is_over(run, typed.drop_first());
    }
}

/// Whatever is typed, the agent is locked with the first passphrase if the second
/// is the same and refused if it differs, and unlocked with the first one; what is
/// typed after that changes nothing.
pub proof fn only_the_first_passphrases_count(typed: Seq<Seq<char>>)
    ensures
        ({
            let end = lock_run(lock_begun(true), typed);
            &&& end.lock
            &&& typed.len() == 0 ==> end.step == LockStep::Enter && end.passphrase is None
            &&& typed.len() == 1 ==> end.step == LockStep::Confirm
            &&& typed.len() >= 2 && typed[0] == typed[1] ==> end.step == LockStep::Apply
                && end.passphrase == Some(typed[0])
            &&& typed.len() >= 2 && typed[0] != typed[1] ==> end.step == LockStep::Refused
                && end.passphrase is None
        }),
        ({
            let end = lock_run(lock_begun(false), typed);
            &&& !end.lock
            &&& typed.len() == 0 ==> end.step == LockStep::Enter && end.passphrase is None
            &&& typed.len() >= 1 ==> end.step == LockStep::Apply && end.passphrase == Some(typed[0])
        }),
{
    if typed.len() >= 1 {
        let rest = typed.drop_first();
        let locking = lock_after(lock_begun(true), typed[0]);
        let unlocking = lock_after(lock_begun(false), typed[0]);
        lemma_lock_run_is_over(unlocking, rest);
        assert(lock_run(lock_begun(true), typed) == lock_run(locking, rest));
        if typed.len() >= 2 {
            assert(rest[0] == typed[1]);
            lemma_lock_run_is_over(lock_after(locking, typed[1]), rest.drop_first());
        } else {
            assert(rest.len() == 0);
        }
    }
}

/// The prompts tell what is asked for: the passphrase to lock with, the same once
/// more, or the passphrase to unlock with.
pub proof fn prompts_tell_what_is_asked_for(
    run: &LockRun,
    prompt: &'static str,
    line: Line,
)
    requires
        call_ensures(LockRun::prompt, (run,), prompt),
        call_ensures(LockRun::done_line, (run,), line),
    ensures
        !run@.lock ==> prompt@ == "Enter unlock passphrase: "@ && line@.text == "Agent unlocked."@,
        run@.lock && run@.step == LockStep::Enter ==> prompt@ == "Enter lock passphrase: "@,
        run@.lock && run@.step == LockStep::Confirm ==> prompt@ == "Confirm lock passphrase: "@,
        run@.lock ==> line@.text == "Agent locked."@,
        line@.stream == Stream::Stdout,
{
}

/// The agent is given a passphrase exactly where it is to be applied, and a refusal
/// is an error exactly where the passphrases differ.
pub proof fn only_a_settled_passphrase_is_used(
    run: &LockRun,
    passphrase: Option<&Secret>,
    refusal: Option<CliError>,
    line: Line,
)
    requires
        call_ensures(LockRun::passphrase, (run,), passphrase),
        call_ensures(LockRun::refusal, (run,), refusal),
        call_ensures(all_removed_line, (), line),
    ensures
        passphrase is Some <==> run@.step == LockStep::Apply,
        passphrase matches Some(given) ==> run@.passphrase == Some(given@),
        refusal is Some <==> run@.step == LockStep::Refused,
        refusal matches Some(error) ==> error@ == CliErrorView::InvalidConfig(
            "passphrases did not match"@,
        ) && error@.code() == 2,
        line@.text == "All identities removed."@ && line@.stream == Stream::Stdout,
{
}

/// A run that is driven by calls is the run that the typed passphrases make.
pub proof fn lock_runs_follow_what_is_typed(
    lock: bool,
    start: LockRun,
    one: Secret,
    next: LockRun,
    two: Secret,
    last: LockRun,
)
    requires
        call_ensures(LockRun::start, (lock,), start),
        call_ensures(LockRun::typed, (start, one), next),
        call_ensures(LockRun::typed, (next, two), last),
    ensures
        last@ == lock_run(lock_begun(lock), seq![one@, two@]),
{
    let typed = seq![one@, two@];
    let rest = typed.drop_first();
    assert(rest[0] == two@);
    assert(rest.drop_first().len() == 0);
    assert(lock_run(last@, rest.drop_first()) == last@);
    assert(lock_run(next@, rest) == last@);
}

/// An identity and a key for removal are seen as they are.
pub proof fn values_are_seen_as_they_are(id: Identity, key: Removal)
    ensures
        id@.key == id.key@,
        id@.comment == id.comment@,
        key matches Removal::Public(public) ==> key@ == RemovalView::Public(public@),
        key matches Removal::Private(private) ==> key@ == RemovalView::Private(private@),
{
}

} // verus!
