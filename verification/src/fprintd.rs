//! The fingerprint check of the Linux backend: which call goes to `fprintd`
//! next, and what its reply means.
//!
//! The calls travel over D-Bus.  A [`Verification`] says which one is due; the
//! caller performs it and hands the reply back, until the check is finished.

use vstd::prelude::*;

use crate::biometric::{BiometricError, ErrorView, Result};
use crate::text::{join2, same};

verus! {

/// Upper bound on the wait for a verification, in seconds.  The status signal
/// can stall for good (sensor unplugged, driver wedged); this is long enough for
/// several swipes and short enough to fail fast.
pub const VERIFY_TIMEOUT_SECS: u64 = 30;

/// Upper bound on each call of the availability probe, in seconds, so that it
/// never hangs on a dead bus.
pub const PROBE_TIMEOUT_SECS: u64 = 5;

/// The calls of a fingerprint check, in the order in which they are due.
#[derive(Debug, Clone, Copy, PartialEq, Eq, Structural)]
pub enum Step {
    /// Connect to the system bus.
    SystemBus,
    /// Reach the `fprintd` manager.
    Manager,
    /// Ask the manager for the default device.
    DefaultDevice,
    /// Take the path of the device.
    DevicePath,
    /// Reach the device at that path.
    DeviceProxy,
    /// List the fingers that are enrolled for the calling user.
    EnrolledFingers,
    /// Claim the device for the calling user.
    Claim,
    /// Subscribe to the status signal.
    Subscribe,
    /// Start verifying any finger.
    VerifyStart,
    /// Wait for the next status signal, at most until the deadline.
    AwaitStatus,
    /// Stop verifying.
    VerifyStop,
    /// Release the device.
    Release,
    /// Nothing is left to do.
    Finished,
}

/// The reply to a call.
#[derive(Debug)]
pub enum Reply {
    /// The call succeeded.
    Done,
    /// The call failed, or a status signal could not be read.
    Failed(String),
    /// The number of enrolled fingers.
    Fingers(usize),
    /// A status signal: its result, and whether it is the last one.
    Status { result: String, done: bool },
    /// The stream of status signals ended.
    Ended,
    /// The deadline passed.
    TimedOut,
}

/// A [`Reply`] with its texts.
pub enum ReplyView {
    Done,
    Failed(Seq<char>),
    Fingers(usize),
    Status { result: Seq<char>, done: bool },
    Ended,
    TimedOut,
}

impl View for Reply {
    type V = ReplyView;

    open spec fn view(&self) -> ReplyView {
        match self {
            Reply::Done => ReplyView::Done,
            Reply::Failed(why) => ReplyView::Failed(why@),
            Reply::Fingers(count) => ReplyView::Fingers(*count),
            Reply::Status { result, done } => ReplyView::Status { result: result@, done: *done },
            Reply::Ended => ReplyView::Ended,
            Reply::TimedOut => ReplyView::TimedOut,
        }
    }
}

/// A fingerprint check under way.
#[derive(Debug)]
pub struct Verification {
    step: Step,
    verdict: core::result::Result<bool, BiometricError>,
}

/// The step that is due, and what is known of the fingerprint so far.
pub struct VerificationView {
    pub step: Step,
    pub verdict: core::result::Result<bool, ErrorView>,
}

impl View for Verification {
    type V = VerificationView;

    closed spec fn view(&self) -> VerificationView {
        VerificationView {
            step: self.step,
            verdict: match self.verdict {
                Ok(matched) => Ok(matched),
                Err(error) => Err(error@),
            },
        }
    }
}

/// Whether a reply answers the step that is due.
pub open spec fn answers(step: Step, reply: ReplyView) -> bool {
    match step {
        Step::EnrolledFingers => reply is Fingers || reply is Failed,
        Step::AwaitStatus => reply is Status || reply is Failed || reply is Ended
            || reply is TimedOut,
        Step::Finished => false,
        _ => reply is Done || reply is Failed,
    }
}

/// The step that follows a successful call.
pub open spec fn following(step: Step) -> Step {
    match step {
        Step::SystemBus => Step::Manager,
        Step::Manager => Step::DefaultDevice,
        Step::DefaultDevice => Step::DevicePath,
        Step::DevicePath => Step::DeviceProxy,
        Step::DeviceProxy => Step::EnrolledFingers,
        Step::EnrolledFingers => Step::Claim,
        Step::Claim => Step::Subscribe,
        Step::Subscribe => Step::VerifyStart,
        Step::VerifyStart => Step::AwaitStatus,
        Step::AwaitStatus => Step::VerifyStop,
        Step::VerifyStop => Step::Release,
        Step::Release => Step::Finished,
        Step::Finished => Step::Finished,
    }
}

/// The error of a failed call.
pub open spec fn failure(step: Step, why: Seq<char>) -> ErrorView {
    match step {
        Step::SystemBus => ErrorView::Unavailable("system bus: "@ + why),
        Step::Manager => ErrorView::Unavailable("fprintd manager: "@ + why),
        Step::DefaultDevice => ErrorView::Unavailable("no fingerprint device: "@ + why),
        Step::DevicePath => ErrorView::Backend("device path: "@ + why),
        Step::DeviceProxy => ErrorView::Backend("device proxy: "@ + why),
        Step::EnrolledFingers => no_fingers(),
        Step::Claim => ErrorView::Backend("claim device: "@ + why),
        Step::Subscribe => ErrorView::Backend("verify signal: "@ + why),
        Step::VerifyStart => ErrorView::Backend("verify start: "@ + why),
        _ => ErrorView::Backend("verify args: "@ + why),
    }
}

/// The error of a device that knows no finger of the user.
pub open spec fn no_fingers() -> ErrorView {
    ErrorView::Unavailable("no fingerprints are enrolled with fprintd (run `fprintd-enroll`)"@)
}

/// Whether the device is claimed while a step is due.
pub open spec fn holds_device(step: Step) -> bool {
    match step {
        Step::Subscribe => true,
        Step::VerifyStart => true,
        Step::AwaitStatus => true,
        Step::VerifyStop => true,
        Step::Release => true,
        _ => false,
    }
}

/// A verification whose result is settled: a claimed device is first stopped
/// and released.
pub open spec fn decided(
    step: Step,
    verdict: core::result::Result<bool, ErrorView>,
) -> VerificationView {
    VerificationView {
        step: if holds_device(step) {
            Step::VerifyStop
        } else {
            Step::Finished
        },
        verdict,
    }
}

/// A check after a reply.  A reply that does not answer the step that is due
/// changes nothing.
pub open spec fn after(check: VerificationView, reply: ReplyView) -> VerificationView {
    if !answers(check.step, reply) {
        check
    } else {
        match reply {
            ReplyView::Done => VerificationView { step: following(check.step), ..check },
            ReplyView::Fingers(count) => if count == 0 {
                decided(check.step, Err(no_fingers()))
            } else {
                VerificationView { step: following(check.step), ..check }
            },
            ReplyView::Status { result, done } => if done {
                decided(check.step, Ok(result == "verify-match"@))
            } else {
                check
            },
            ReplyView::Ended => decided(check.step, Ok(false)),
            ReplyView::TimedOut => decided(check.step, Ok(false)),
            ReplyView::Failed(why) => if check.step == Step::VerifyStop || check.step
                == Step::Release {
                VerificationView { step: following(check.step), ..check }
            } else {
                decided(check.step, Err(failure(check.step, why)))
            },
        }
    }
}

/// A check at its beginning.
pub open spec fn beginning() -> VerificationView {
    VerificationView { step: Step::SystemBus, verdict: Ok(false) }
}

/// The outcome of a finished check: success on a match only.
pub open spec fn outcome(check: VerificationView) -> core::result::Result<(), ErrorView> {
    match check.verdict {
        Ok(true) => Ok(()),
        Ok(false) => Err(ErrorView::Cancelled),
        Err(error) => Err(error),
    }
}

/// The error of a failed call.
fn error_of(step: Step, why: String) -> (r: BiometricError)
    requires
        step != Step::VerifyStop,
        step != Step::Release,
        step != Step::Finished,
    ensures
        r@ == failure(step, why@),
{
    let why: &str = why.as_str();
    match step {
        Step::SystemBus => BiometricError::Unavailable(join2("system bus: ", why)),
        Step::Manager => BiometricError::Unavailable(join2("fprintd manager: ", why)),
        Step::DefaultDevice => BiometricError::Unavailable(join2("no fingerprint device: ", why)),
        Step::DevicePath => BiometricError::Backend(join2("device path: ", why)),
        Step::DeviceProxy => BiometricError::Backend(join2("device proxy: ", why)),
        Step::EnrolledFingers => unenrolled(),
        Step::Claim => BiometricError::Backend(join2("claim device: ", why)),
        Step::Subscribe => BiometricError::Backend(join2("verify signal: ", why)),
        Step::VerifyStart => BiometricError::Backend(join2("verify start: ", why)),
        _ => BiometricError::Backend(join2("verify args: ", why)),
    }
}

/// The error of a device that knows no finger of the user.
fn unenrolled() -> (r: BiometricError)
    ensures
        r@ == no_fingers(),
{
    BiometricError::Unavailable(
        "no fingerprints are enrolled with fprintd (run `fprintd-enroll`)".to_owned(),
    )
}

/// The step that follows a successful call.
fn next_step(step: Step) -> (r: Step)
    ensures
        r == following(step),
{
    match step {
        Step::SystemBus => Step::Manager,
        Step::Manager => Step::DefaultDevice,
        Step::DefaultDevice => Step::DevicePath,
        Step::DevicePath => Step::DeviceProxy,
        Step::DeviceProxy => Step::EnrolledFingers,
        Step::EnrolledFingers => Step::Claim,
        Step::Claim => Step::Subscribe,
        Step::Subscribe => Step::VerifyStart,
        Step::VerifyStart => Step::AwaitStatus,
        Step::AwaitStatus => Step::VerifyStop,
        Step::VerifyStop => Step::Release,
        Step::Release => Step::Finished,
        Step::Finished => Step::Finished,
    }
}

impl Verification {
    /// Begins a check.
    pub fn start() -> (r: Verification)
        ensures
            r@ == beginning(),
    {
        Verification { step: Step::SystemBus, verdict: Ok(false) }
    }

    /// The call that is due.
    pub fn step(&self) -> (r: Step)
        ensures
            r == self@.step,
    {
        self.step
    }

    /// Settles the verdict.
    fn decide(&mut self, verdict: core::result::Result<bool, BiometricError>)
        ensures
            final(self)@ == decided(
                old(self)@.step,
                (match verdict {
                    Ok(matched) => Ok(matched),
                    Err(error) => Err(error@),
                }),
            ),
    {
        self.step =
        match self.step {
            Step::Subscribe => Step::VerifyStop,
            Step::VerifyStart => Step::VerifyStop,
            Step::AwaitStatus => Step::VerifyStop,
            Step::VerifyStop => Step::VerifyStop,
            Step::Release => Step::VerifyStop,
            _ => Step::Finished,
        };
        self.verdict = verdict;
    }

    /// Takes the reply to the call that was due.  A reply that does not answer
    /// it is ignored.
    pub fn reply(&mut self, reply: Reply)
        ensures
            final(self)@ == after(old(self)@, reply@),
    {
        let step: Step = self.step;
        match reply {
            Reply::Done => {
                if step != Step::EnrolledFingers && step != Step::AwaitStatus {
                    self.step = next_step(step);
                }
            },
            Reply::Fingers(count) => {
                if step == Step::EnrolledFingers {
                    if count == 0 {
                        self.decide(Err(unenrolled()));
                    } else {
                        self.step = next_step(step);
                    }
                }
            },
            Reply::Status { result, done } => {
                if step == Step::AwaitStatus && done {
                    self.decide(Ok(same(result.as_str(), "verify-match")));
                }
            },
            Reply::Ended => {
                if step == Step::AwaitStatus {
                    self.decide(Ok(false));
                }
            },
            Reply::TimedOut => {
                if step == Step::AwaitStatus {
                    self.decide(Ok(false));
                }
            },
            Reply::Failed(why) => {
                if step == Step::VerifyStop || step == Step::Release {
                    self.step = next_step(step);
                } else if step != Step::Finished {
                    self.decide(Err(error_of(step, why)));
                }
            },
        }
    }

    /// The outcome of a finished check.
    pub fn outcome(self) -> (r: Result<()>)
        ensures
            (match r {
                Ok(_) => Ok(()),
                Err(error) => Err(error@),
            }) == outcome(self@),
    {
        match self.verdict {
            Ok(true) => Ok(()),
            Ok(false) => Err(BiometricError::Cancelled),
            Err(error) => Err(error),
        }
    }
}

/// A check after a sequence of replies.
pub open spec fn run(check: VerificationView, replies: Seq<ReplyView>) -> VerificationView
    decreases replies.len(),
{
    if replies.len() == 0 {
        check
    } else {
        run(after(check, replies[0]), replies.drop_first())
    }
}

/// The calls that are performed while a sequence of replies comes in.
pub open spec fn performed(check: VerificationView, replies: Seq<ReplyView>) -> Seq<Step>
    decreases replies.len(),
{
    if replies.len() == 0 {
        Seq::empty()
    } else if answers(check.step, replies[0]) {
        seq![check.step] + performed(after(check, replies[0]), replies.drop_first())
    } else {
        performed(check, replies.drop_first())
    }
}

/// The device is never left claimed: whatever the replies, a check that ends
/// after the device was claimed performs as its last two calls the stop of the
/// verification and the release of the device.
pub proof fn a_claimed_device_is_always_released(
    check: VerificationView,
    replies: Seq<ReplyView>,
)
    requires
        holds_device(check.step),
        check.step != Step::Release,
        run(check, replies).step == Step::Finished,
    ensures
        performed(check, replies).len() >= 2,
        performed(check, replies).last() == Step::Release,
        performed(check, replies)[performed(check, replies).len() - 2] == Step::VerifyStop,
    decreases replies.len(),
{
    let next = after(check, replies[0]);
    let rest = replies.drop_first();
    if next.step == Step::Release {
        lemma_release_is_last(next, rest);
        assert(performed(check, replies) =~= seq![Step::VerifyStop] + performed(next, rest));
    } else {
        a_claimed_device_is_always_released(next, rest);
    }
}

proof fn lemma_release_is_last(check: VerificationView, replies: Seq<ReplyView>)
    requires
        check.step == Step::Release,
        run(check, replies).step == Step::Finished,
    ensures
        performed(check, replies) == seq![Step::Release],
    decreases replies.len(),
{
    let next = after(check, replies[0]);
    let rest = replies.drop_first();
    if answers(check.step, replies[0]) {
        lemma_finished_is_final(next, rest);
        assert(seq![Step::Release] + Seq::<Step>::empty() =~= seq![Step::Release]);
    } else {
        lemma_release_is_last(check, rest);
    }
}

proof fn lemma_finished_is_final(check: VerificationView, replies: Seq<ReplyView>)
    requires
        check.step == Step::Finished,
    ensures
        performed(check, replies) == Seq::<Step>::empty(),
        run(check, replies) == check,
    decreases replies.len(),
{
    if replies.len() > 0 {
        lemma_finished_is_final(check, replies.drop_first());
    }
}

/// The device is claimed by a successful claim and by nothing else, and only its
/// release gives it back.
pub proof fn the_device_is_held_from_claim_to_release(check: VerificationView, reply: ReplyView)
    ensures
        !holds_device(check.step) && holds_device(after(check, reply).step) ==> check.step
            == Step::Claim && reply is Done,
        holds_device(check.step) && !holds_device(after(check, reply).step) ==> check.step
            == Step::Release,
{
}

/// No status signal is missed: verification starts only after the subscription
/// to its signals succeeded.
pub proof fn subscription_precedes_verification(check: VerificationView, reply: ReplyView)
    ensures
        check.step != Step::VerifyStart && after(check, reply).step == Step::VerifyStart
            ==> check.step == Step::Subscribe && reply is Done,
{
}

/// A check that begins anew succeeds only if one of the replies was the final
/// status `verify-match`.
pub proof fn only_a_match_verifies(check: VerificationView, replies: Seq<ReplyView>)
    requires
        check.verdict != Ok::<bool, ErrorView>(true),
        outcome(run(check, replies)) is Ok,
    ensures
        exists|i: int|
            0 <= i < replies.len() && (#[trigger] replies[i] matches ReplyView::Status {
                result,
                done,
            } && result == "verify-match"@ && done),
    decreases replies.len(),
{
    if replies.len() > 0 {
        let next = after(check, replies[0]);
        let rest = replies.drop_first();
        if next.verdict == Ok::<bool, ErrorView>(true) {
            assert(replies[0] is Status);
        } else {
            only_a_match_verifies(next, rest);
            let i = choose|i: int|
                0 <= i < rest.len() && (#[trigger] rest[i] matches ReplyView::Status { result, done }
                    && result == "verify-match"@ && done);
            assert(replies[i + 1] == rest[i]);
        }
    }
}

/// While a status is awaited, a final status other than a match, the end of the
/// signals and the deadline all decide for "cancelled"; any other status signal
/// is a hint to try again.
pub proof fn everything_but_a_match_cancels(check: VerificationView, reply: ReplyView)
    requires
        check.step == Step::AwaitStatus,
    ensures
        reply is Ended || reply is TimedOut || (reply matches ReplyView::Status { result, done }
            && done && result != "verify-match"@) ==> outcome(after(check, reply)) == Err::<
            (),
            ErrorView,
        >(ErrorView::Cancelled),
        (reply matches ReplyView::Status { result, done } && !done) ==> after(check, reply) == check,
{
}

/// The probe for a usable Linux backend.
#[derive(Debug, Clone, Copy, PartialEq, Eq, Structural)]
pub enum Probe {
    /// Connect to the system bus.
    SystemBus,
    /// Reach the `fprintd` manager.
    Manager,
    /// Ask the manager for the default device.
    DefaultDevice,
    /// Open the keyring.
    Keyring,
    /// All of it succeeded.
    Available,
    /// Something is missing, or did not answer in time.
    Unavailable,
}

impl Probe {
    /// The probe after a call that succeeded or not.
    pub open spec fn moved(self, succeeded: bool) -> Probe {
        match self {
            Probe::Available => Probe::Available,
            Probe::Unavailable => Probe::Unavailable,
            _ => if !succeeded {
                Probe::Unavailable
            } else {
                match self {
                    Probe::SystemBus => Probe::Manager,
                    Probe::Manager => Probe::DefaultDevice,
                    Probe::DefaultDevice => Probe::Keyring,
                    _ => Probe::Available,
                }
            },
        }
    }

    /// The probe after a call that succeeded or not.
    pub fn after(self, succeeded: bool) -> (r: Probe)
        ensures
            r == self.moved(succeeded),
    {
        match self {
            Probe::Available => Probe::Available,
            Probe::Unavailable => Probe::Unavailable,
            _ => if !succeeded {
                Probe::Unavailable
            } else {
                match self {
                    Probe::SystemBus => Probe::Manager,
                    Probe::Manager => Probe::DefaultDevice,
                    Probe::DefaultDevice => Probe::Keyring,
                    _ => Probe::Available,
                }
            },
        }
    }
}

/// The backend is available exactly if the bus, the manager, the device and the
/// keyring all answered.
pub proof fn available_means_everything_answered(a: bool, b: bool, c: bool, d: bool)
    ensures
        Probe::SystemBus.moved(a).moved(b).moved(c).moved(d) == (if a && b && c && d {
            Probe::Available
        } else {
            Probe::Unavailable
        }),
{
}

proof fn lemma_run_splits(check: VerificationView, replies: Seq<ReplyView>, i: int)
    requires
        0 <= i <= replies.len(),
    ensures
        run(check, replies) == run(run(check, replies.take(i)), replies.skip(i)),
        performed(check, replies) == performed(check, replies.take(i)) + performed(
            run(check, replies.take(i)),
            replies.skip(i),
        ),
    decreases i,
{
    if i == 0 {
        assert(replies.skip(0) =~= replies);
    } else {
        let next = after(check, replies[0]);
        let rest = replies.drop_first();
        lemma_run_splits(next, rest, i - 1);
        assert(replies.take(i).drop_first() =~= rest.take(i - 1));
        assert(replies.skip(i) =~= rest.skip(i - 1));
        assert(performed(check, replies) =~= performed(check, replies.take(i)) + performed(
            run(check, replies.take(i)),
            replies.skip(i),
        ));
    }
}

/// Whatever happens in a check from its beginning to its end: if a claim of the
/// device succeeded on the way, the last two calls are the stop of the
/// verification and the release of the device.
pub proof fn no_check_leaves_the_device_claimed(replies: Seq<ReplyView>, i: int)
    requires
        0 <= i < replies.len(),
        run(beginning(), replies.take(i)).step == Step::Claim,
        replies[i] is Done,
        run(beginning(), replies).step == Step::Finished,
    ensures
        performed(beginning(), replies).len() >= 2,
        performed(beginning(), replies).last() == Step::Release,
        performed(beginning(), replies)[performed(beginning(), replies).len() - 2]
            == Step::VerifyStop,
{
    let claiming = run(beginning(), replies.take(i));
    lemma_run_splits(beginning(), replies, i);
    let rest = replies.skip(i);
    assert(rest[0] == replies[i]);
    let claimed = after(claiming, rest[0]);
    a_claimed_device_is_always_released(claimed, rest.drop_first());
}

/// The answers of a device that recognises the finger lead from the beginning of
/// a check to its success.
pub proof fn a_match_verifies(fingers: usize)
    requires
        fingers > 0,
    ensures
        ({
            let claiming = VerificationView { step: Step::Claim, verdict: Ok(false) };
            let waiting = VerificationView { step: Step::AwaitStatus, verdict: Ok(false) };
            let matched = ReplyView::Status { result: "verify-match"@, done: true };
            &&& after(
                after(
                    after(
                        after(
                            after(after(beginning(), ReplyView::Done), ReplyView::Done),
                            ReplyView::Done,
                        ),
                        ReplyView::Done,
                    ),
                    ReplyView::Done,
                ),
                ReplyView::Fingers(fingers),
            ) == claiming
            &&& after(
                after(after(claiming, ReplyView::Done), ReplyView::Done),
                ReplyView::Done,
            ) == waiting
            &&& forall|stop: ReplyView, release: ReplyView|
                (stop is Done || stop is Failed) && (release is Done || release is Failed)
                    ==> #[trigger] after(after(after(waiting, matched), stop), release)
                    == (VerificationView { step: Step::Finished, verdict: Ok(true) })
            &&& outcome(VerificationView { step: Step::Finished, verdict: Ok(true) }) is Ok
        }),
{
}

/// The place of a call in the order in which the calls of a check are made.
pub open spec fn place(step: Step) -> int {
    match step {
        Step::SystemBus => 0,
        Step::Manager => 1,
        Step::DefaultDevice => 2,
        Step::DevicePath => 3,
        Step::DeviceProxy => 4,
        Step::EnrolledFingers => 5,
        Step::Claim => 6,
        Step::Subscribe => 7,
        Step::VerifyStart => 8,
        Step::AwaitStatus => 9,
        Step::VerifyStop => 10,
        Step::Release => 11,
        Step::Finished => 12,
    }
}

/// A call that succeeds makes the next one due, and no call is left out or made
/// again; a call that fails ends the check, by way of the stop and the release
/// where the device is claimed.
pub proof fn calls_are_made_in_order(check: VerificationView, reply: ReplyView)
    ensures
        ({
            let next = after(check, reply);
            let from = place(check.step);
            let cleaning = check.step == Step::VerifyStop || check.step == Step::Release;
            &&& reply is Done && check.step != Step::EnrolledFingers && check.step
                != Step::AwaitStatus && check.step != Step::Finished ==> place(next.step) == from + 1
            &&& check.step == Step::EnrolledFingers && (reply matches ReplyView::Fingers(count)
                && count > 0) ==> next.step == Step::Claim
            &&& check.step == Step::EnrolledFingers && (reply matches ReplyView::Fingers(count)
                && count == 0) ==> next.step == Step::Finished
            &&& reply is Failed && cleaning ==> place(next.step) == from + 1
            &&& reply is Failed && !cleaning && from <= 6 ==> next.step == Step::Finished
            &&& reply is Failed && !cleaning && 7 <= from <= 9 ==> next.step == Step::VerifyStop
            &&& check.step == Step::AwaitStatus && (reply is Ended || reply is TimedOut || (
            reply matches ReplyView::Status { result, done } && done)) ==> next.step
                == Step::VerifyStop
            &&& !answers(check.step, reply) || (reply matches ReplyView::Status { result, done }
                && !done) ==> next == check
            &&& check.step == Step::Finished ==> next == check
        }),
        beginning().step == Step::SystemBus,
        beginning().verdict == Ok::<bool, ErrorView>(false),
{
}

/// What a reply can be an answer to: fingers to their listing, a status, the end of
/// the signals and the deadline to the wait, and a success to any other call; every
/// call may fail.
pub proof fn replies_answer_their_own_call(step: Step, reply: ReplyView)
    ensures
        answers(step, reply) <==> match reply {
            ReplyView::Done => step != Step::EnrolledFingers && step != Step::AwaitStatus && step
                != Step::Finished,
            ReplyView::Failed(_) => step != Step::Finished,
            ReplyView::Fingers(_) => step == Step::EnrolledFingers,
            ReplyView::Status { .. } => step == Step::AwaitStatus,
            ReplyView::Ended => step == Step::AwaitStatus,
            ReplyView::TimedOut => step == Step::AwaitStatus,
        },
{
}

/// What is known of the fingerprint changes only by a final status, by the end of
/// the wait and by a failure before the check is stopped; stopping and releasing
/// never change it.
pub proof fn every_verdict_has_its_cause(check: VerificationView, reply: ReplyView)
    ensures
        ({
            let verdict = after(check, reply).verdict;
            match (check.step, reply) {
                (Step::AwaitStatus, ReplyView::Status { result, done: true }) => verdict == Ok::<
                    bool,
                    ErrorView,
                >(result == "verify-match"@),
                (Step::AwaitStatus, ReplyView::Ended) => verdict == Ok::<bool, ErrorView>(false),
                (Step::AwaitStatus, ReplyView::TimedOut) => verdict == Ok::<bool, ErrorView>(false),
                (Step::EnrolledFingers, ReplyView::Fingers(0)) => verdict == Err::<bool, ErrorView>(
                    ErrorView::Unavailable(
                        "no fingerprints are enrolled with fprintd (run `fprintd-enroll`)"@,
                    ),
                ),
                (Step::EnrolledFingers, ReplyView::Failed(_)) => verdict == Err::<bool, ErrorView>(
                    ErrorView::Unavailable(
                        "no fingerprints are enrolled with fprintd (run `fprintd-enroll`)"@,
                    ),
                ),
                (Step::SystemBus, ReplyView::Failed(why)) => verdict == Err::<bool, ErrorView>(
                    ErrorView::Unavailable("system bus: "@ + why),
                ),
                (Step::Manager, ReplyView::Failed(why)) => verdict == Err::<bool, ErrorView>(
                    ErrorView::Unavailable("fprintd manager: "@ + why),
                ),
                (Step::DefaultDevice, ReplyView::Failed(why)) => verdict == Err::<bool, ErrorView>(
                    ErrorView::Unavailable("no fingerprint device: "@ + why),
                ),
                (Step::DevicePath, ReplyView::Failed(why)) => verdict == Err::<bool, ErrorView>(
                    ErrorView::Backend("device path: "@ + why),
                ),
                (Step::DeviceProxy, ReplyView::Failed(why)) => verdict == Err::<bool, ErrorView>(
                    ErrorView::Backend("device proxy: "@ + why),
                ),
                (Step::Claim, ReplyView::Failed(why)) => verdict == Err::<bool, ErrorView>(
                    ErrorView::Backend("claim device: "@ + why),
                ),
                (Step::Subscribe, ReplyView::Failed(why)) => verdict == Err::<bool, ErrorView>(
                    ErrorView::Backend("verify signal: "@ + why),
                ),
                (Step::VerifyStart, ReplyView::Failed(why)) => verdict == Err::<bool, ErrorView>(
                    ErrorView::Backend("verify start: "@ + why),
                ),
                (Step::AwaitStatus, ReplyView::Failed(why)) => verdict == Err::<bool, ErrorView>(
                    ErrorView::Backend("verify args: "@ + why),
                ),
                (_, _) => verdict == check.verdict,
            }
        }),
{
}

/// A check succeeds exactly on a match; anything short of an error counts as
/// cancelled, and an error is handed on.
pub proof fn outcomes_follow_the_verdict(check: VerificationView)
    ensures
        outcome(check) is Ok <==> (check.verdict matches Ok(matched) && matched),
        (check.verdict matches Ok(matched) && !matched) ==> outcome(check) == Err::<(), ErrorView>(
            ErrorView::Cancelled,
        ),
        check.verdict matches Err(error) ==> outcome(check) == Err::<(), ErrorView>(error),
{
}

/// Whether the verification could be stopped and the device released makes no
/// difference to the outcome of a check.
pub proof fn cleaning_up_makes_no_difference(
    check: VerificationView,
    why: Seq<char>,
    replies: Seq<ReplyView>,
)
    requires
        check.step == Step::VerifyStop || check.step == Step::Release,
    ensures
        run(check, seq![ReplyView::Done] + replies) == run(
            check,
            seq![ReplyView::Failed(why)] + replies,
        ),
{
    let stopped = seq![ReplyView::Done] + replies;
    let failed = seq![ReplyView::Failed(why)] + replies;
    assert(stopped.drop_first() =~= replies);
    assert(failed.drop_first() =~= replies);
    assert(stopped[0] == ReplyView::Done);
    assert(failed[0] == ReplyView::Failed(why));
}

proof fn lemma_calls_in_order(check: VerificationView, replies: Seq<ReplyView>)
    ensures
        forall|i: int|
            0 <= i < performed(check, replies).len() ==> place(check.step) <= place(
                #[trigger] performed(check, replies)[i],
            ),
        forall|i: int, j: int|
            0 <= i < j < performed(check, replies).len() ==> place(
                #[trigger] performed(check, replies)[i],
            ) <= place(#[trigger] performed(check, replies)[j]),
    decreases replies.len(),
{
    if replies.len() > 0 {
        let next = after(check, replies[0]);
        let rest = replies.drop_first();
        let all = performed(check, replies);
        if answers(check.step, replies[0]) {
            let later = performed(next, rest);
            lemma_calls_in_order(next, rest);
            calls_are_made_in_order(check, replies[0]);
            assert forall|i: int| 0 <= i < all.len() implies place(check.step) <= place(
                #[trigger] all[i],
            ) by {
                if i > 0 {
                    assert(all[i] == later[i - 1]);
                }
            }
            assert forall|i: int, j: int| 0 <= i < j < all.len() implies place(#[trigger] all[i])
                <= place(#[trigger] all[j]) by {
                assert(all[j] == later[j - 1]);
                if i > 0 {
                    assert(all[i] == later[i - 1]);
                }
            }
        } else {
            lemma_calls_in_order(check, rest);
        }
    }
}

/// Whatever the replies, the calls of a whole check come in their order: none is
/// made after one that belongs behind it.
pub proof fn a_check_never_goes_back(replies: Seq<ReplyView>, i: int, j: int)
    requires
        0 <= i < j < performed(beginning(), replies).len(),
    ensures
        place(performed(beginning(), replies)[i]) <= place(performed(beginning(), replies)[j]),
{
    lemma_calls_in_order(beginning(), replies);
}

/// The probe after a sequence of calls that succeeded or not.
pub open spec fn probed(probe: Probe, answers: Seq<bool>) -> Probe
    decreases answers.len(),
{
    if answers.len() == 0 {
        probe
    } else {
        probed(probe.moved(answers[0]), answers.drop_first())
    }
}

proof fn lemma_probe_is_over(probe: Probe, answers: Seq<bool>)
    requires
        probe == Probe::Available || probe == Probe::Unavailable,
    ensures
        probed(probe, answers) == probe,
    decreases answers.len(),
{
    if answers.len() > 0 {
        lemma_probe_is_over(probe, answers.drop_first());
    }
}

/// A probe is over at the first call that fails, or after four that succeed, and
/// what comes later changes nothing; before that the bus, the manager, the device
/// and the keyring are tried in this order.
pub proof fn a_probe_ends_at_the_first_failure(probe: Probe, answers: Seq<bool>)
    requires
        probe == Probe::Available || probe == Probe::Unavailable,
    ensures
        probed(probe, answers) == probe,
        Probe::SystemBus.moved(true) == Probe::Manager,
        Probe::Manager.moved(true) == Probe::DefaultDevice,
        Probe::DefaultDevice.moved(true) == Probe::Keyring,
        Probe::Keyring.moved(true) == Probe::Available,
        forall|earlier: Probe|
            earlier != Probe::Available ==> #[trigger] earlier.moved(false) == Probe::Unavailable,
{
    lemma_probe_is_over(probe, answers);
}

/// The probe for a backend gives up well before a check does.
pub proof fn probes_are_quicker_than_checks()
    ensures
        0 < PROBE_TIMEOUT_SECS < VERIFY_TIMEOUT_SECS,
        PROBE_TIMEOUT_SECS == 5,
        VERIFY_TIMEOUT_SECS == 30,
{
}

/// A check starts by connecting to the bus, with nothing known of the fingerprint,
/// and what it gives back is success on a match, and otherwise an error.
pub proof fn checks_end_with_their_verdict(
    start: Verification,
    check: Verification,
    step: Step,
    r: Result<()>,
)
    requires
        call_ensures(Verification::start, (), start),
        call_ensures(Verification::step, (&check,), step),
        call_ensures(Verification::outcome, (check,), r),
    ensures
        start@.step == Step::SystemBus && start@.verdict == Ok::<bool, ErrorView>(false),
        step == check@.step,
        r is Ok <==> (check@.verdict matches Ok(matched) && matched),
        r matches Err(error) ==> match check@.verdict {
            Ok(_) => error@ == ErrorView::Cancelled,
            Err(reason) => error@ == reason,
        },
{
}

/// A reply is seen as it is: what was counted or signalled, or why a call failed, and
/// nothing else.
pub proof fn replies_are_seen_as_they_are(reply: Reply)
    ensures
        match reply {
            Reply::Done => reply@ is Done,
            Reply::Failed(why) => reply@ == ReplyView::Failed(why@),
            Reply::Fingers(count) => reply@ == ReplyView::Fingers(count),
            Reply::Status { result, done } => reply@ == (ReplyView::Status {
                result: result@,
                done,
            }),
            Reply::Ended => reply@ is Ended,
            Reply::TimedOut => reply@ is TimedOut,
        },
{
}

} // verus!
