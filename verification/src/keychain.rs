//! The macOS keystore: how a passphrase is stored in, released from, removed
//! from and listed in the Keychain.
//!
//! The Keychain itself raises the Touch ID prompt when an item is read.  A
//! [`Session`] says which call is due; the caller performs it and hands the
//! reply back, until the session is finished.

use vstd::prelude::*;
use vstd::utf8::*;

use crate::attributes::{find, lookup, owned_pairs};
use crate::biometric::{
    enrollment_to_forget, fingerprint_in, fingerprint_of, fingerprint_of_key_id, key_id_of,
    keys_view, unlock_outcome, AutoUnlockView, BiometricError, EnrolledKey, EnrolledKeyView,
    ErrorView,
};
use crate::secret::Secret;
use crate::text::{join2, join3, signed_decimal, signed_text};
use crate::vault::{may_have, Outcome, OutcomeView, Request};

verus! {

/// Keychain service that all our items share.  The account field holds the
/// `SHA256:...` fingerprint of the key.
pub const SERVICE: &'static str = "org.SpacecraftSoftware.gitway.ssh-passphrase";

/// The status of a missing item.
pub const ERR_SEC_ITEM_NOT_FOUND: i32 = -25300;

/// The status of a prompt that the user dismissed.
pub const ERR_SEC_USER_CANCELED: i32 = -128;

/// The status of a failed authentication.
pub const ERR_SEC_AUTH_FAILED: i32 = -25293;

/// The attribute that holds the account of an item.
pub const ACCOUNT_NAME: &'static str = "acct";

/// The attribute that holds the comment of an item.
pub const COMMENT_NAME: &'static str = "icmt";

/// The account field for a key is its bare fingerprint.
pub fn account_of(key_id: &str) -> (r: &str)
    ensures
        r@ == fingerprint_in(key_id@),
{
    fingerprint_of(key_id)
}

/// The label of a stored item.
pub fn label(key_id: &str) -> (r: String)
    ensures
        r@ == "Gitway SSH passphrase ("@ + fingerprint_in(key_id@) + ")"@,
{
    join3("Gitway SSH passphrase (", account_of(key_id), ")")
}

/// The error that a Keychain status stands for.
pub open spec fn error_for(code: i32) -> ErrorView {
    if code == ERR_SEC_ITEM_NOT_FOUND {
        ErrorView::NotEnrolled
    } else if code == ERR_SEC_USER_CANCELED || code == ERR_SEC_AUTH_FAILED {
        ErrorView::Cancelled
    } else {
        ErrorView::Backend("keychain error "@ + signed_text(code as int))
    }
}

/// Maps a Keychain status onto a [`BiometricError`].
pub fn map_error(code: i32) -> (r: BiometricError)
    ensures
        r@ == error_for(code),
{
    if code == ERR_SEC_ITEM_NOT_FOUND {
        BiometricError::NotEnrolled
    } else if code == ERR_SEC_USER_CANCELED || code == ERR_SEC_AUTH_FAILED {
        BiometricError::Cancelled
    } else {
        BiometricError::Backend(join2("keychain error ", signed_decimal(code).as_str()))
    }
}

/// The listing of an item, from its attributes.
pub open spec fn entry_of(list: Seq<(Seq<char>, Seq<char>)>) -> EnrolledKeyView {
    EnrolledKeyView {
        fingerprint: match lookup(list, ACCOUNT_NAME@) {
            Some(account) => account,
            None => Seq::empty(),
        },
        comment: lookup(list, COMMENT_NAME@),
    }
}

/// The listing of an item, from its attributes.
pub fn entry(list: &Vec<(String, String)>) -> (r: EnrolledKey)
    ensures
        r@ == entry_of(owned_pairs(list@)),
{
    let fingerprint: String = match find(list, ACCOUNT_NAME) {
        Some(account) => account.clone(),
        None => String::new(),
    };
    let comment: Option<String> = match find(list, COMMENT_NAME) {
        Some(comment) => Some(comment.clone()),
        None => None,
    };
    EnrolledKey { fingerprint, comment }
}

/// The attributes of each search result that has any.
pub open spec fn results_view(results: Seq<Option<Vec<(String, String)>>>) -> Seq<
    Option<Seq<(Seq<char>, Seq<char>)>>,
> {
    results.map_values(
        |result: Option<Vec<(String, String)>>|
            match result {
                Some(list) => Some(owned_pairs(list@)),
                None => None,
            },
    )
}

/// The listings of the search results that have attributes, in their order.
pub open spec fn entries_of(results: Seq<Option<Seq<(Seq<char>, Seq<char>)>>>) -> Seq<
    EnrolledKeyView,
>
    decreases results.len(),
{
    if results.len() == 0 {
        Seq::empty()
    } else {
        let earlier = entries_of(results.drop_last());
        match results.last() {
            Some(list) => earlier.push(entry_of(list)),
            None => earlier,
        }
    }
}

/// The listings of the search results that have attributes, in their order.
pub fn entries(results: &Vec<Option<Vec<(String, String)>>>) -> (r: Vec<EnrolledKey>)
    ensures
        keys_view(r@) == entries_of(results_view(results@)),
{
    let ghost all = results_view(results@);
    let mut enrolled: Vec<EnrolledKey> = Vec::new();
    let mut i: usize = 0;
    assert(keys_view(enrolled@) =~= entries_of(all.take(0)));
    while i < results.len()
        invariant
            i <= results@.len(),
            all == results_view(results@),
            keys_view(enrolled@) == entries_of(all.take(i as int)),
        decreases results@.len() - i,
    {
        assert(all.take(i + 1).drop_last() =~= all.take(i as int));
        let ghost earlier = keys_view(enrolled@);
        match &results[i] {
            Some(list) => {
                enrolled.push(entry(list));
                assert(keys_view(enrolled@) =~= earlier.push(entry_of(owned_pairs(list@))));
            },
            None => {},
        }
        i += 1;
    }
    assert(all.take(i as int) =~= all);
    enrolled
}

/// The calls of a session.
#[derive(Debug, Clone, Copy, PartialEq, Eq, Structural)]
pub enum Step {
    /// Remove an earlier item of the key, which a new one would collide with.
    Clear,
    /// Add the item of the key.
    Write,
    /// Read the item of the key, which raises the Touch ID prompt.
    Read,
    /// Remove the item of the key.
    Remove,
    /// Search for the attributes of all items, without reading a secret.
    Search,
    /// Nothing is left to do.
    Finished,
}

/// The reply to a call.
pub enum Reply {
    /// The call succeeded.
    Done,
    /// The call failed with a status.
    Failed(i32),
    /// The secret of an item.
    Secret(Vec<u8>),
    /// The attributes of each search result that has any.
    Results(Vec<Option<Vec<(String, String)>>>),
}

/// A [`Reply`] with its texts.
pub enum ReplyView {
    Done,
    Failed(i32),
    Secret(Seq<u8>),
    Results(Seq<Option<Seq<(Seq<char>, Seq<char>)>>>),
}

impl View for Reply {
    type V = ReplyView;

    open spec fn view(&self) -> ReplyView {
        match self {
            Reply::Done => ReplyView::Done,
            Reply::Failed(code) => ReplyView::Failed(*code),
            Reply::Secret(bytes) => ReplyView::Secret(bytes@),
            Reply::Results(results) => ReplyView::Results(results_view(results@)),
        }
    }
}

/// A request to the Keychain under way.
pub struct Session {
    request: Request,
    step: Step,
    outcome: Outcome,
}

/// A [`Session`] with its texts.
pub struct SessionView {
    pub request: Request,
    pub step: Step,
    pub outcome: OutcomeView,
}

impl View for Session {
    type V = SessionView;

    closed spec fn view(&self) -> SessionView {
        SessionView { request: self.request, step: self.step, outcome: self.outcome@ }
    }
}

/// The first call of a request.
pub open spec fn first_step(request: Request) -> Step {
    match request {
        Request::Store => Step::Clear,
        Request::Retrieve => Step::Read,
        Request::Delete => Step::Remove,
        Request::List => Step::Search,
    }
}

/// A session at its beginning.
pub open spec fn opened(request: Request) -> SessionView {
    SessionView { request, step: first_step(request), outcome: OutcomeView::Pending }
}

/// A session that ended.
pub open spec fn ended(session: SessionView, outcome: OutcomeView) -> SessionView {
    SessionView { step: Step::Finished, outcome, ..session }
}

/// A session after a reply.  A reply that does not answer the call that is due
/// changes nothing.
pub open spec fn after(session: SessionView, reply: ReplyView) -> SessionView {
    match (session.step, reply) {
        (Step::Clear, ReplyView::Done) => SessionView { step: Step::Write, ..session },
        (Step::Clear, ReplyView::Failed(_)) => SessionView { step: Step::Write, ..session },
        (Step::Write, ReplyView::Done) => ended(session, OutcomeView::Stored),
        (Step::Remove, ReplyView::Done) => ended(session, OutcomeView::Deleted),
        (Step::Read, ReplyView::Secret(bytes)) => if valid_utf8(bytes) {
            ended(session, OutcomeView::Released(decode_utf8(bytes)))
        } else {
            ended(
                session,
                OutcomeView::Failed(ErrorView::Backend("stored passphrase is not valid UTF-8"@)),
            )
        },
        (Step::Search, ReplyView::Results(results)) => ended(
            session,
            OutcomeView::Listed(entries_of(results)),
        ),
        (Step::Search, ReplyView::Failed(code)) => if code == ERR_SEC_ITEM_NOT_FOUND {
            ended(session, OutcomeView::Listed(Seq::empty()))
        } else {
            ended(session, OutcomeView::Failed(error_for(code)))
        },
        (Step::Finished, _) => session,
        (_, ReplyView::Failed(code)) => ended(session, OutcomeView::Failed(error_for(code))),
        (_, _) => session,
    }
}

impl Session {
    /// Begins a request.
    pub fn start(request: Request) -> (r: Session)
        ensures
            r@ == opened(request),
    {
        let step: Step = match request {
            Request::Store => Step::Clear,
            Request::Retrieve => Step::Read,
            Request::Delete => Step::Remove,
            Request::List => Step::Search,
        };
        Session { request, step, outcome: Outcome::Pending }
    }

    /// The call that is due.
    pub fn step(&self) -> (r: Step)
        ensures
            r == self@.step,
    {
        self.step
    }

    /// Ends the session.
    fn end(self, outcome: Outcome) -> (r: Session)
        ensures
            r@ == ended(self@, outcome@),
    {
        Session { step: Step::Finished, outcome, ..self }
    }

    /// Takes the secret of the item that was read.
    fn take_secret(self, bytes: Vec<u8>) -> (r: Session)
        requires
            self@.step == Step::Read,
        ensures
            r@ == after(self@, ReplyView::Secret(bytes@)),
    {
        let mut buffer: Vec<u8> = bytes;
        match Secret::from_buffer(&mut buffer) {
            Some(secret) => self.end(Outcome::Released(secret)),
            None => self.end(
                Outcome::Failed(
                    BiometricError::Backend("stored passphrase is not valid UTF-8".to_owned()),
                ),
            ),
        }
    }

    /// Takes the reply to the call that was due.  A reply that does not answer
    /// it is ignored.
    pub fn reply(self, reply: Reply) -> (r: Session)
        ensures
            r@ == after(self@, reply@),
    {
        let step: Step = self.step;
        match reply {
            Reply::Done => match step {
                Step::Clear => Session { step: Step::Write, ..self },
                Step::Write => self.end(Outcome::Stored),
                Step::Remove => self.end(Outcome::Deleted),
                _ => self,
            },
            Reply::Failed(code) => match step {
                Step::Clear => Session { step: Step::Write, ..self },
                Step::Finished => self,
                Step::Search => if code == ERR_SEC_ITEM_NOT_FOUND {
                    let keys: Vec<EnrolledKey> = Vec::new();
                    assert(keys_view(keys@) =~= Seq::empty());
                    self.end(Outcome::Listed(keys))
                } else {
                    self.end(Outcome::Failed(map_error(code)))
                },
                _ => self.end(Outcome::Failed(map_error(code))),
            },
            Reply::Secret(bytes) => if step == Step::Read {
                self.take_secret(bytes)
            } else {
                self
            },
            Reply::Results(results) => if step == Step::Search {
                self.end(Outcome::Listed(entries(&results)))
            } else {
                self
            },
        }
    }

    /// How the session ended.
    pub fn outcome(self) -> (r: Outcome)
        ensures
            r@ == self@.outcome,
    {
        self.outcome
    }
}

/// A session after a sequence of replies.
pub open spec fn run(session: SessionView, replies: Seq<ReplyView>) -> SessionView
    decreases replies.len(),
{
    if replies.len() == 0 {
        session
    } else {
        run(after(session, replies[0]), replies.drop_first())
    }
}

/// What holds of a session at any time.
pub open spec fn proper(session: SessionView) -> bool {
    &&& may_have(session.request, session.outcome)
    &&& session.step == Step::Finished <==> !(session.outcome is Pending)
    &&& session.step == Step::Finished || session.step == first_step(session.request) || (
    session.request == Request::Store && session.step == Step::Write)
}

/// Whatever the replies, a request keeps to its own calls and ends in its own
/// kind of outcome.  Only a release reads a secret, which is what raises the
/// Touch ID prompt; a listing never does.
pub proof fn requests_keep_to_their_steps(request: Request, replies: Seq<ReplyView>)
    ensures
        proper(run(opened(request), replies)),
        run(opened(request), replies).request == request,
{
    lemma_stays_proper(opened(request), replies);
}

proof fn lemma_stays_proper(session: SessionView, replies: Seq<ReplyView>)
    requires
        proper(session),
    ensures
        proper(run(session, replies)),
        run(session, replies).request == session.request,
    decreases replies.len(),
{
    if replies.len() > 0 {
        lemma_stays_proper(after(session, replies[0]), replies.drop_first());
    }
}

/// Storing removes an earlier item before the new one is added, and it does not
/// matter whether there was one.
pub proof fn storing_clears_first(reply: ReplyView)
    requires
        reply is Done || reply is Failed,
    ensures
        opened(Request::Store).step == Step::Clear,
        after(opened(Request::Store), reply).step == Step::Write,
{
}

/// An empty Keychain is an empty listing, not a failure.
pub proof fn an_empty_keychain_lists_nothing(session: SessionView)
    requires
        session.step == Step::Search,
    ensures
        after(session, ReplyView::Failed(ERR_SEC_ITEM_NOT_FOUND)).outcome == OutcomeView::Listed(
            Seq::empty(),
        ),
{
}

/// What is stored is what is released: an item that holds the UTF-8 form of a
/// passphrase is released as that passphrase.
pub proof fn what_was_stored_is_released(session: SessionView, passphrase: Seq<char>)
    requires
        session.step == Step::Read,
    ensures
        after(session, ReplyView::Secret(encode_utf8(passphrase))).outcome == OutcomeView::Released(
            passphrase,
        ),
{
    encode_utf8_valid_utf8(passphrase);
    encode_utf8_decode_utf8(passphrase);
}

/// A stale enrollment is reported once.  Its item was removed, and nothing was
/// stored for the key since: the Keychain reports the next release as a missing
/// item, so that load falls back to the passphrase prompt and deletes nothing.
pub proof fn a_stale_enrollment_is_reported_once(pem: Seq<char>)
    ensures
        after(opened(Request::Delete), ReplyView::Done).outcome == OutcomeView::Deleted,
        after(
            opened(Request::Retrieve),
            ReplyView::Failed(ERR_SEC_ITEM_NOT_FOUND),
        ).outcome == OutcomeView::Failed(ErrorView::NotEnrolled),
        unlock_outcome(pem, Err(ErrorView::NotEnrolled)) == AutoUnlockView::Fallback,
        enrollment_to_forget(pem, unlock_outcome(pem, Err(ErrorView::NotEnrolled))) is None,
{
}

/// An item of the Keychain that belongs to us.
pub struct ItemView {
    pub account: Seq<char>,
    pub secret: Seq<u8>,
}

/// The items of an account, or those of all others, in their order.
pub open spec fn selected(
    items: Seq<ItemView>,
    account: Seq<char>,
    matching: bool,
) -> Seq<ItemView>
    decreases items.len(),
{
    if items.len() == 0 {
        Seq::empty()
    } else {
        let earlier = selected(items.drop_last(), account, matching);
        if (items.last().account == account) == matching {
            earlier.push(items.last())
        } else {
            earlier
        }
    }
}

/// What is found for a key.
pub open spec fn found(items: Seq<ItemView>, key_id: Seq<char>) -> Seq<ItemView> {
    selected(items, fingerprint_in(key_id), true)
}

/// What is left after the removal of what belongs to a key.
pub open spec fn removed(items: Seq<ItemView>, key_id: Seq<char>) -> Seq<ItemView> {
    selected(items, fingerprint_in(key_id), false)
}

/// What holds the passphrase of a key.
pub open spec fn item_for(key_id: Seq<char>, passphrase: Seq<char>) -> ItemView {
    ItemView { account: fingerprint_in(key_id), secret: encode_utf8(passphrase) }
}

/// The items after a call that succeeded, or that found nothing to remove.
pub open spec fn effect(
    items: Seq<ItemView>,
    step: Step,
    key_id: Seq<char>,
    passphrase: Seq<char>,
) -> Seq<ItemView> {
    match step {
        Step::Clear => removed(items, key_id),
        Step::Remove => removed(items, key_id),
        Step::Write => items.push(item_for(key_id, passphrase)),
        _ => items,
    }
}

/// The items after the calls of a session that got these replies.
pub open spec fn effects(
    items: Seq<ItemView>,
    session: SessionView,
    replies: Seq<ReplyView>,
    key_id: Seq<char>,
    passphrase: Seq<char>,
) -> Seq<ItemView>
    decreases replies.len(),
{
    if replies.len() == 0 {
        items
    } else {
        effects(
            effect(items, session.step, key_id, passphrase),
            after(session, replies[0]),
            replies.drop_first(),
            key_id,
            passphrase,
        )
    }
}

proof fn lemma_nothing_matches_after_removal(items: Seq<ItemView>, key_id: Seq<char>)
    ensures
        found(removed(items, key_id), key_id) == Seq::<ItemView>::empty(),
    decreases items.len(),
{
    if items.len() > 0 {
        let earlier = items.drop_last();
        lemma_nothing_matches_after_removal(earlier, key_id);
        let kept = removed(earlier, key_id);
        assert(kept.push(items.last()).drop_last() =~= kept);
    }
}

/// The replies to a session that stores a passphrase.  Where there is no earlier
/// item, its removal fails.
pub open spec fn store_replies(clear: ReplyView) -> Seq<ReplyView> {
    seq![clear, ReplyView::Done]
}

/// The Keychain after a session that stored a passphrase.
pub open spec fn stored(
    items: Seq<ItemView>,
    key_id: Seq<char>,
    passphrase: Seq<char>,
    clear: ReplyView,
) -> Seq<ItemView> {
    effects(items, opened(Request::Store), store_replies(clear), key_id, passphrase)
}

/// Storing overwrites: whatever the Keychain held before, the session ends as
/// stored, and one item is found for the key, which holds the passphrase that
/// was stored last.
pub proof fn storing_overwrites(
    items: Seq<ItemView>,
    key_id: Seq<char>,
    passphrase: Seq<char>,
    clear: ReplyView,
)
    requires
        clear is Done || clear is Failed,
    ensures
        run(opened(Request::Store), store_replies(clear)).outcome == OutcomeView::Stored,
        found(stored(items, key_id, passphrase, clear), key_id) == seq![
            item_for(key_id, passphrase),
        ],
{
    let start = opened(Request::Store);
    let replies = store_replies(clear);
    let rest = replies.drop_first();
    let writing = after(start, clear);
    let last = after(writing, rest[0]);
    let kept = removed(items, key_id);
    let item = item_for(key_id, passphrase);
    lemma_nothing_matches_after_removal(items, key_id);
    assert(kept.push(item).drop_last() =~= kept);
    assert(Seq::<ItemView>::empty().push(item) =~= seq![item]);
    assert(rest.drop_first().len() == 0);
    assert(run(last, rest.drop_first()) == last);
    assert(run(writing, rest) == last);
    assert(effects(kept.push(item), last, rest.drop_first(), key_id, passphrase) == kept.push(
        item,
    ));
    assert(effects(kept, writing, rest, key_id, passphrase) == kept.push(item));
}

/// Two passphrases are stored for a key, one after the other: a release then
/// gives back the second one, unchanged.
pub proof fn a_second_store_replaces_the_first(
    items: Seq<ItemView>,
    key_id: Seq<char>,
    first: Seq<char>,
    second: Seq<char>,
    clear: ReplyView,
    clear_again: ReplyView,
)
    requires
        clear is Done || clear is Failed,
        clear_again is Done || clear_again is Failed,
    ensures
        ({
            let twice = stored(stored(items, key_id, first, clear), key_id, second, clear_again);
            &&& found(twice, key_id) == seq![item_for(key_id, second)]
            &&& run(
                opened(Request::Retrieve),
                seq![ReplyView::Secret(found(twice, key_id)[0].secret)],
            ).outcome == OutcomeView::Released(second)
        }),
{
    let once = stored(items, key_id, first, clear);
    storing_overwrites(once, key_id, second, clear_again);
    let reading = opened(Request::Retrieve);
    let replies = seq![ReplyView::Secret(encode_utf8(second))];
    what_was_stored_is_released(reading, second);
    let last = after(reading, replies[0]);
    assert(replies.drop_first().len() == 0);
    assert(run(last, replies.drop_first()) == last);
}

/// A reply that does not answer the call that is due changes nothing: every call
/// may fail, the search has results, the read has a secret, and the others only
/// succeed.
pub proof fn only_answers_change_a_session(session: SessionView, reply: ReplyView)
    requires
        match reply {
            ReplyView::Done => session.step == Step::Read || session.step == Step::Search
                || session.step == Step::Finished,
            ReplyView::Failed(_) => session.step == Step::Finished,
            ReplyView::Secret(_) => session.step != Step::Read,
            ReplyView::Results(_) => session.step != Step::Search,
        },
    ensures
        after(session, reply) == session,
{
}

/// What makes each call due: the first call of a request is that of its kind, and
/// the one call that has another before it is the writing of an item.
pub proof fn every_step_has_its_cause(session: SessionView, reply: ReplyView)
    requires
        proper(session),
    ensures
        ({
            let next = after(session, reply);
            &&& next.request == session.request
            &&& session.step != Step::Write ==> (next.step == Step::Write <==> session.step
                == Step::Clear && (reply is Done || reply is Failed))
            &&& next.step == session.step || next.step == Step::Write || next.step
                == Step::Finished
            &&& next.step != Step::Finished ==> next.outcome is Pending
        }),
        opened(Request::Store).step == Step::Clear,
        opened(Request::Retrieve).step == Step::Read,
        opened(Request::Delete).step == Step::Remove,
        opened(Request::List).step == Step::Search,
        forall|request: Request|
            (#[trigger] opened(request)).request == request && opened(request).outcome is Pending,
{
}

/// What ends a session, and how.
pub proof fn every_outcome_has_its_cause(session: SessionView, reply: ReplyView)
    requires
        proper(session),
        session.outcome is Pending,
    ensures
        ({
            let outcome = after(session, reply).outcome;
            &&& outcome is Stored <==> session.step == Step::Write && reply is Done
            &&& outcome is Deleted <==> session.step == Step::Remove && reply is Done
            &&& outcome is Released <==> session.step == Step::Read && (
            reply matches ReplyView::Secret(bytes) && valid_utf8(bytes))
            &&& outcome is Listed <==> session.step == Step::Search && (reply is Results || (
            reply matches ReplyView::Failed(code) && code == -25300))
            &&& outcome is Failed <==> {
                ||| session.step == Step::Read && (reply matches ReplyView::Secret(bytes)
                    && !valid_utf8(bytes))
                ||| session.step == Step::Search && (reply matches ReplyView::Failed(code) && code
                    != -25300)
                ||| session.step != Step::Clear && session.step != Step::Search && reply is Failed
            }
        }),
{
}

/// What a session that ends gives back: the passphrase that was read, the keys
/// that were found, or the error that the status stands for.
pub proof fn outcomes_carry_what_was_read(session: SessionView, reply: ReplyView)
    requires
        proper(session),
        session.outcome is Pending,
    ensures
        ({
            let outcome = after(session, reply).outcome;
            match (session.step, reply) {
                (Step::Read, ReplyView::Secret(bytes)) => outcome == if valid_utf8(bytes) {
                    OutcomeView::Released(decode_utf8(bytes))
                } else {
                    OutcomeView::Failed(
                        ErrorView::Backend("stored passphrase is not valid UTF-8"@),
                    )
                },
                (Step::Search, ReplyView::Results(results)) => outcome == OutcomeView::Listed(
                    entries_of(results),
                ),
                (Step::Search, ReplyView::Failed(code)) => if code == -25300 {
                    outcome matches OutcomeView::Listed(keys) && keys.len() == 0
                } else {
                    outcome == OutcomeView::Failed(error_for(code))
                },
                (Step::Clear, _) => outcome is Pending,
                (_, ReplyView::Failed(code)) => outcome == OutcomeView::Failed(error_for(code)),
                (_, _) => true,
            }
        }),
{
}

/// Whether there was an earlier item makes no difference to anything that follows
/// its removal.
pub proof fn clearing_makes_no_difference(
    session: SessionView,
    code: i32,
    replies: Seq<ReplyView>,
)
    requires
        session.step == Step::Clear,
    ensures
        run(session, seq![ReplyView::Done] + replies) == run(
            session,
            seq![ReplyView::Failed(code)] + replies,
        ),
{
    let cleared = seq![ReplyView::Done] + replies;
    let missing = seq![ReplyView::Failed(code)] + replies;
    assert(cleared.drop_first() =~= replies);
    assert(missing.drop_first() =~= replies);
    assert(cleared[0] == ReplyView::Done);
    assert(missing[0] == ReplyView::Failed(code));
}

/// A session that is over takes no further reply, however many come.
pub proof fn a_finished_session_stays_as_it_is(session: SessionView, replies: Seq<ReplyView>)
    requires
        session.step == Step::Finished,
    ensures
        run(session, replies) == session,
    decreases replies.len(),
{
    if replies.len() > 0 {
        a_finished_session_stays_as_it_is(session, replies.drop_first());
    }
}

/// The reply that ended a session.
proof fn lemma_last_reply(session: SessionView, replies: Seq<ReplyView>) -> (last: int)
    requires
        proper(session),
        session.outcome is Pending,
        !(run(session, replies).outcome is Pending),
    ensures
        0 <= last < replies.len(),
        run(session, replies.take(last)).outcome is Pending,
        proper(run(session, replies.take(last))),
        run(session, replies.take(last)).request == session.request,
        after(run(session, replies.take(last)), replies[last]) == run(session, replies),
    decreases replies.len(),
{
    let next = after(session, replies[0]);
    let rest = replies.drop_first();
    if next.outcome is Pending {
        let i = lemma_last_reply(next, rest);
        assert(replies.take(i + 1).drop_first() =~= rest.take(i));
        assert(replies.take(i + 1)[0] == replies[0]);
        assert(rest[i] == replies[i + 1]);
        lemma_stays_proper(session, replies.take(i + 1));
        i + 1
    } else {
        a_finished_session_stays_as_it_is(next, rest);
        assert(replies.take(0).len() == 0);
        0
    }
}

/// In a whole session, from its beginning on: what the outcome says was done by the
/// call that was made for it, and that call succeeded.
pub proof fn outcomes_were_brought_about(request: Request, replies: Seq<ReplyView>)
    requires
        !(run(opened(request), replies).outcome is Pending),
    ensures
        exists|last: int|
            {
                let before = run(opened(request), replies.take(last));
                let end = run(opened(request), replies);
                &&& 0 <= last < replies.len()
                &&& end.outcome is Stored ==> request == Request::Store && before.step
                    == Step::Write && #[trigger] replies[last] is Done
                &&& end.outcome is Deleted ==> request == Request::Delete && before.step
                    == Step::Remove && replies[last] is Done
                &&& end.outcome matches OutcomeView::Released(passphrase) ==> request
                    == Request::Retrieve && before.step == Step::Read && (
                replies[last] matches ReplyView::Secret(bytes) && valid_utf8(bytes) && passphrase
                    == decode_utf8(bytes))
                &&& end.outcome matches OutcomeView::Listed(keys) ==> request == Request::List && (
                replies[last] matches ReplyView::Results(results) ==> keys == entries_of(results))
            },
{
    let last = lemma_last_reply(opened(request), replies);
    let before = run(opened(request), replies.take(last));
    every_outcome_has_its_cause(before, replies[last]);
    outcomes_carry_what_was_read(before, replies[last]);
    assert(replies[last] == replies[last]);
}

/// A missing item means that the key is not enrolled, a dismissed prompt or a
/// failed authentication that the user declined, and any other status is named.
pub proof fn statuses_are_told_apart(code: i32)
    ensures
        error_for(code) is NotEnrolled <==> code == -25300,
        error_for(code) is Cancelled <==> code == -128 || code == -25293,
        !(error_for(code) is Unavailable),
        error_for(code) matches ErrorView::Backend(message) ==> message == "keychain error "@
            + signed_text(code as int),
{
}

/// A listing holds the entries of the results that have attributes, in their
/// order, and no others.
pub proof fn results_are_listed_one_by_one(
    some: Seq<Option<Seq<(Seq<char>, Seq<char>)>>>,
    others: Seq<Option<Seq<(Seq<char>, Seq<char>)>>>,
    list: Seq<(Seq<char>, Seq<char>)>,
)
    ensures
        entries_of(some + others) == entries_of(some) + entries_of(others),
        entries_of(seq![Some(list)]) == seq![entry_of(list)],
        entries_of(seq![None::<Seq<(Seq<char>, Seq<char>)>>]) == Seq::<EnrolledKeyView>::empty(),
        lookup(list, "acct"@) matches Some(account) ==> entry_of(list).fingerprint == account,
        lookup(list, "acct"@) is None ==> entry_of(list).fingerprint.len() == 0,
        entry_of(list).comment == lookup(list, "icmt"@),
    decreases others.len(),
{
    let all = some + others;
    if others.len() == 0 {
        assert(all =~= some);
        assert(entries_of(some) + Seq::<EnrolledKeyView>::empty() =~= entries_of(some));
    } else {
        results_are_listed_one_by_one(some, others.drop_last(), list);
        assert(all.drop_last() =~= some + others.drop_last());
        assert(all.last() == others.last());
        assert(entries_of(all) =~= entries_of(some) + entries_of(others));
    }
    let one = seq![Some(list)];
    let none = seq![None::<Seq<(Seq<char>, Seq<char>)>>];
    assert(one.drop_last() =~= Seq::empty());
    assert(none.drop_last() =~= Seq::empty());
    assert(entries_of(one.drop_last()) =~= Seq::empty());
    assert(entries_of(none.drop_last()) =~= Seq::empty());
    assert(entries_of(one) =~= seq![entry_of(list)]);
}

/// An item is filed under the fingerprint of its key and labelled by it.
pub proof fn items_name_their_key(
    key_id: &str,
    fingerprint: Seq<char>,
    account: &str,
    text: String,
)
    requires
        key_id@ == key_id_of(fingerprint),
        call_ensures(account_of, (key_id,), account),
        call_ensures(label, (key_id,), text),
    ensures
        account@ == fingerprint,
        text@ == "Gitway SSH passphrase ("@ + fingerprint + ")"@,
        SERVICE@ == "org.SpacecraftSoftware.gitway.ssh-passphrase"@,
{
    fingerprint_of_key_id(fingerprint);
}

/// A session that is driven by calls is the session that its replies make, and its
/// outcome is the one that they lead to.
pub proof fn sessions_follow_their_replies(
    request: Request,
    start: Session,
    one: Reply,
    next: Session,
    two: Reply,
    last: Session,
    outcome: Outcome,
)
    requires
        call_ensures(Session::start, (request,), start),
        call_ensures(Session::reply, (start, one), next),
        call_ensures(Session::reply, (next, two), last),
        call_ensures(Session::outcome, (last,), outcome),
    ensures
        last@ == run(opened(request), seq![one@, two@]),
        outcome@ == run(opened(request), seq![one@, two@]).outcome,
        forall|step: Step| #[trigger]
            call_ensures(Session::step, (&last,), step) ==> step == last@.step,
{
    let replies = seq![one@, two@];
    let rest = replies.drop_first();
    assert(rest[0] == two@);
    assert(rest.drop_first().len() == 0);
    assert(run(last@, rest.drop_first()) == last@);
    assert(run(next@, rest) == last@);
}

/// A reply is seen as it is: what was read or found, or the status of a failure, and
/// nothing else.
pub proof fn replies_are_seen_as_they_are(reply: Reply)
    ensures
        match reply {
            Reply::Done => reply@ is Done,
            Reply::Failed(code) => reply@ == ReplyView::Failed(code),
            Reply::Secret(bytes) => reply@ == ReplyView::Secret(bytes@),
            Reply::Results(results) => reply@ matches ReplyView::Results(lists) && lists.len()
                == results@.len() && forall|i: int|
                0 <= i < lists.len() ==> {
                    &&& results@[i] is None ==> (#[trigger] lists[i]) is None
                    &&& results@[i] matches Some(list) ==> lists[i] == Some(owned_pairs(list@))
                },
        },
{
}

} // verus!
