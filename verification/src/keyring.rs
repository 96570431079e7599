//! The Linux keystore: how a passphrase is stored in, released from, removed
//! from and listed in the Secret Service keyring.
//!
//! The keyring is reached over D-Bus.  A [`Session`] says which call is due; the
//! caller performs it and hands the reply back, until the session is finished.

use vstd::prelude::*;
use vstd::utf8::*;

use crate::attributes::{find, lookup, owned_pairs, pairs};
use crate::biometric::{
    enrollment_to_forget, fingerprint_in, fingerprint_of, fingerprint_of_key_id, key_id_of,
    keys_view, unlock_outcome, AutoUnlockView, BiometricError, EnrolledKey, EnrolledKeyView,
    ErrorView, Result,
};
use crate::keys::private_key_fingerprint;
use crate::secret::Secret;
use crate::text::{join2, join3};
use crate::vault::{may_have, Outcome, OutcomeView, Request};

verus! {

/// Marks an item as ours, so that no secret of another application is touched.
pub const APP_NAME: &'static str = "application";

pub const APP_VALUE: &'static str = "gitway";

/// Tells SSH passphrases from any other secret of ours.
pub const TYPE_NAME: &'static str = "type";

pub const TYPE_VALUE: &'static str = "ssh-passphrase";

/// Names the key that an item belongs to.
pub const KEY_ID_NAME: &'static str = "key-id";

pub const FINGERPRINT_NAME: &'static str = "fingerprint";

pub const COMMENT_NAME: &'static str = "comment";

/// Whether an item that is created replaces the items that match its attributes.
pub const REPLACE: bool = true;

/// The attributes that every item of ours carries.
pub open spec fn common_attributes() -> Seq<(Seq<char>, Seq<char>)> {
    seq![(APP_NAME@, APP_VALUE@), (TYPE_NAME@, TYPE_VALUE@)]
}

/// The attributes of the item of one key.
pub open spec fn key_attributes(key_id: Seq<char>) -> Seq<(Seq<char>, Seq<char>)> {
    common_attributes() + seq![(KEY_ID_NAME@, key_id), (FINGERPRINT_NAME@, fingerprint_in(key_id))]
}

/// Attribute set identifying a single key's stored passphrase.  The Secret
/// Service matches items whose attributes are a superset of the query, so the
/// same set serves for creating and for finding an item.
pub fn attributes(key_id: &str) -> (r: Vec<(&str, &str)>)
    ensures
        pairs(r@) == key_attributes(key_id@),
{
    let mut list: Vec<(&str, &str)> = Vec::new();
    list.push((APP_NAME, APP_VALUE));
    list.push((TYPE_NAME, TYPE_VALUE));
    list.push((KEY_ID_NAME, key_id));
    list.push((FINGERPRINT_NAME, fingerprint_of(key_id)));
    assert(pairs(list@) =~= key_attributes(key_id@));
    list
}

/// The query that finds the items of all keys.
pub fn list_query() -> (r: Vec<(&'static str, &'static str)>)
    ensures
        pairs(r@) == common_attributes(),
{
    let mut list: Vec<(&'static str, &'static str)> = Vec::new();
    list.push((APP_NAME, APP_VALUE));
    list.push((TYPE_NAME, TYPE_VALUE));
    assert(pairs(list@) =~= common_attributes());
    list
}

/// The query that goes with a request: a listing searches for the items of all
/// keys, and any other request for the item of its key.
pub fn query(request: Request, key_id: &str) -> (r: Vec<(&str, &str)>)
    ensures
        pairs(r@) == (if request == Request::List {
            common_attributes()
        } else {
            key_attributes(key_id@)
        }),
{
    if request == Request::List {
        list_query()
    } else {
        attributes(key_id)
    }
}

/// The label of a stored item, for the identifier of its key.
pub open spec fn label_of(key_id: Seq<char>) -> Seq<char> {
    "Gitway SSH passphrase ("@ + fingerprint_in(key_id) + ")"@
}

/// The label of a stored item.
pub fn label(key_id: &str) -> (r: String)
    ensures
        r@ == label_of(key_id@),
{
    join3("Gitway SSH passphrase (", fingerprint_of(key_id), ")")
}

/// The listing of an item, from its attributes.  An item without a fingerprint
/// is listed by its key identifier.
pub open spec fn entry_of(list: Seq<(Seq<char>, Seq<char>)>) -> EnrolledKeyView {
    EnrolledKeyView {
        fingerprint: match lookup(list, FINGERPRINT_NAME@) {
            Some(fingerprint) => fingerprint,
            None => match lookup(list, KEY_ID_NAME@) {
                Some(key_id) => fingerprint_in(key_id),
                None => Seq::empty(),
            },
        },
        comment: lookup(list, COMMENT_NAME@),
    }
}

/// The listing of an item, from its attributes.
pub fn entry(list: &Vec<(String, String)>) -> (r: EnrolledKey)
    ensures
        r@ == entry_of(owned_pairs(list@)),
{
    let fingerprint: String = match find(list, FINGERPRINT_NAME) {
        Some(fingerprint) => fingerprint.clone(),
        None => match find(list, KEY_ID_NAME) {
            Some(key_id) => fingerprint_of(key_id.as_str()).to_owned(),
            None => String::new(),
        },
    };
    let comment: Option<String> = match find(list, COMMENT_NAME) {
        Some(comment) => Some(comment.clone()),
        None => None,
    };
    EnrolledKey { fingerprint, comment }
}

/// The calls of a session.
#[derive(Debug, Clone, Copy, PartialEq, Eq, Structural)]
pub enum Step {
    /// Open the default keyring.
    Open,
    /// Unlock it, as far as that works.
    Unlock,
    /// Create or replace the item of the key.
    Create,
    /// Search for the item of the key, or for all items.
    Search,
    /// Check the user's fingerprint.
    Verify,
    /// Read the secret of the item that was found.
    ReadSecret,
    /// Remove the item of the key.
    Remove,
    /// Read the attributes of the next item that was found.
    Attributes,
    /// Nothing is left to do.
    Finished,
}

/// The reply to a call.
pub enum Reply {
    /// The call succeeded.
    Done,
    /// The call failed.
    Failed(String),
    /// The number of items that were found.
    Found(usize),
    /// The outcome of the fingerprint check.
    Verified(Result<()>),
    /// The secret of an item.
    Secret(Vec<u8>),
    /// The attributes of an item.
    Attributes(Vec<(String, String)>),
}

/// A [`Reply`] with its texts.
pub enum ReplyView {
    Done,
    Failed(Seq<char>),
    Found(usize),
    Verified(core::result::Result<(), ErrorView>),
    Secret(Seq<u8>),
    Attributes(Seq<(Seq<char>, Seq<char>)>),
}

impl View for Reply {
    type V = ReplyView;

    open spec fn view(&self) -> ReplyView {
        match self {
            Reply::Done => ReplyView::Done,
            Reply::Failed(why) => ReplyView::Failed(why@),
            Reply::Found(count) => ReplyView::Found(*count),
            Reply::Verified(outcome) => ReplyView::Verified(
                match *outcome {
                    Ok(_) => Ok(()),
                    Err(error) => Err(error@),
                },
            ),
            Reply::Secret(bytes) => ReplyView::Secret(bytes@),
            Reply::Attributes(list) => ReplyView::Attributes(owned_pairs(list@)),
        }
    }
}

/// A request to the keyring under way.
pub struct Session {
    request: Request,
    step: Step,
    /// The number of items that a listing reads.
    total: usize,
    /// The items that a listing has read.
    keys: Vec<EnrolledKey>,
    outcome: Outcome,
}

/// A [`Session`] with its texts.
pub struct SessionView {
    pub request: Request,
    pub step: Step,
    pub total: usize,
    pub keys: Seq<EnrolledKeyView>,
    pub outcome: OutcomeView,
}

impl View for Session {
    type V = SessionView;

    closed spec fn view(&self) -> SessionView {
        SessionView {
            request: self.request,
            step: self.step,
            total: self.total,
            keys: keys_view(self.keys@),
            outcome: self.outcome@,
        }
    }
}

/// A session at its beginning.
pub open spec fn opened(request: Request) -> SessionView {
    SessionView {
        request,
        step: Step::Open,
        total: 0,
        keys: Seq::empty(),
        outcome: OutcomeView::Pending,
    }
}

/// A session that ended.
pub open spec fn ended(session: SessionView, outcome: OutcomeView) -> SessionView {
    SessionView { step: Step::Finished, outcome, ..session }
}

/// A session that moved on.
pub open spec fn moved(session: SessionView, step: Step) -> SessionView {
    SessionView { step, ..session }
}

/// A listing that read all items.
pub open spec fn listed(session: SessionView) -> SessionView {
    SessionView {
        step: Step::Finished,
        keys: Seq::empty(),
        outcome: OutcomeView::Listed(session.keys),
        ..session
    }
}

/// The error of a failed call.
pub open spec fn failure(step: Step, why: Seq<char>) -> ErrorView {
    match step {
        Step::Open => ErrorView::Unavailable("keyring: "@ + why),
        Step::Create => ErrorView::Backend("keyring write: "@ + why),
        Step::Search => ErrorView::Backend("keyring search: "@ + why),
        Step::ReadSecret => ErrorView::Backend("keyring read: "@ + why),
        Step::Remove => ErrorView::Backend("keyring delete: "@ + why),
        _ => ErrorView::Backend("keyring attributes: "@ + why),
    }
}

/// What follows the number of items that a search found.
pub open spec fn after_search(session: SessionView, count: usize) -> SessionView {
    match session.request {
        Request::List => if count == 0 {
            listed(session)
        } else {
            SessionView { step: Step::Attributes, total: count, ..session }
        },
        _ => if count == 0 {
            ended(session, OutcomeView::Failed(ErrorView::NotEnrolled))
        } else if session.request == Request::Retrieve {
            moved(session, Step::Verify)
        } else {
            moved(session, Step::Remove)
        },
    }
}

/// What follows the attributes of an item of a listing.
pub open spec fn after_item(
    session: SessionView,
    list: Seq<(Seq<char>, Seq<char>)>,
) -> SessionView {
    let more = SessionView { keys: session.keys.push(entry_of(list)), ..session };
    if more.keys.len() >= session.total {
        listed(more)
    } else {
        more
    }
}

/// What follows the secret of an item: a passphrase is UTF-8.
pub open spec fn after_secret(session: SessionView, bytes: Seq<u8>) -> SessionView {
    if valid_utf8(bytes) {
        ended(session, OutcomeView::Released(decode_utf8(bytes)))
    } else {
        ended(
            session,
            OutcomeView::Failed(ErrorView::Backend("stored passphrase is not valid UTF-8"@)),
        )
    }
}

/// A session after a reply.  A reply that does not answer the call that is due
/// changes nothing.
pub open spec fn after(session: SessionView, reply: ReplyView) -> SessionView {
    match (session.step, reply) {
        (Step::Open, ReplyView::Done) => moved(session, Step::Unlock),
        (Step::Unlock, ReplyView::Done) => unlocked(session),
        (Step::Unlock, ReplyView::Failed(_)) => unlocked(session),
        (Step::Create, ReplyView::Done) => ended(session, OutcomeView::Stored),
        (Step::Search, ReplyView::Found(count)) => after_search(session, count),
        (Step::Verify, ReplyView::Verified(Ok(_))) => moved(session, Step::ReadSecret),
        (Step::Verify, ReplyView::Verified(Err(error))) => ended(
            session,
            OutcomeView::Failed(error),
        ),
        (Step::ReadSecret, ReplyView::Secret(bytes)) => after_secret(session, bytes),
        (Step::Remove, ReplyView::Done) => ended(session, OutcomeView::Deleted),
        (Step::Attributes, ReplyView::Attributes(list)) => after_item(session, list),
        (Step::Verify, _) => session,
        (Step::Finished, _) => session,
        (_, ReplyView::Failed(why)) => ended(
            session,
            OutcomeView::Failed(failure(session.step, why)),
        ),
        (_, _) => session,
    }
}

/// What follows the attempt to unlock the keyring, which may fail: many setups
/// unlock it at login.
pub open spec fn unlocked(session: SessionView) -> SessionView {
    if session.request == Request::Store {
        moved(session, Step::Create)
    } else {
        moved(session, Step::Search)
    }
}

/// The error of a failed call.
fn error_of(step: Step, why: String) -> (r: BiometricError)
    ensures
        r@ == failure(step, why@),
{
    let why: &str = why.as_str();
    match step {
        Step::Open => BiometricError::Unavailable(join2("keyring: ", why)),
        Step::Create => BiometricError::Backend(join2("keyring write: ", why)),
        Step::Search => BiometricError::Backend(join2("keyring search: ", why)),
        Step::ReadSecret => BiometricError::Backend(join2("keyring read: ", why)),
        Step::Remove => BiometricError::Backend(join2("keyring delete: ", why)),
        _ => BiometricError::Backend(join2("keyring attributes: ", why)),
    }
}

impl Session {
    /// Begins a request.
    pub fn start(request: Request) -> (r: Session)
        ensures
            r@ == opened(request),
    {
        let session: Session = Session {
            request,
            step: Step::Open,
            total: 0,
            keys: Vec::new(),
            outcome: Outcome::Pending,
        };
        assert(session@.keys =~= opened(request).keys);
        session
    }

    /// The call that is due.
    pub fn step(&self) -> (r: Step)
        ensures
            r == self@.step,
    {
        self.step
    }

    /// The number of items that a listing has read, which is the position of the
    /// next one.
    pub fn position(&self) -> (r: usize)
        ensures
            r == self@.keys.len(),
    {
        self.keys.len()
    }

    /// Ends the session.
    fn end(self, outcome: Outcome) -> (r: Session)
        ensures
            r@ == ended(self@, outcome@),
    {
        Session { step: Step::Finished, outcome, ..self }
    }

    /// Moves the session on.
    fn go(self, step: Step) -> (r: Session)
        ensures
            r@ == moved(self@, step),
    {
        Session { step, ..self }
    }

    /// Ends a listing that read all items.
    fn close_listing(self) -> (r: Session)
        ensures
            r@ == listed(self@),
    {
        let session: Session = Session {
            request: self.request,
            step: Step::Finished,
            total: self.total,
            keys: Vec::new(),
            outcome: Outcome::Listed(self.keys),
        };
        assert(session@.keys =~= Seq::empty());
        session
    }

    /// Takes the number of items that a search found.
    fn take_count(self, count: usize) -> (r: Session)
        ensures
            r@ == after_search(self@, count),
    {
        match self.request {
            Request::List => if count == 0 {
                self.close_listing()
            } else {
                Session { step: Step::Attributes, total: count, ..self }
            },
            _ => if count == 0 {
                self.end(Outcome::Failed(BiometricError::NotEnrolled))
            } else if self.request == Request::Retrieve {
                self.go(Step::Verify)
            } else {
                self.go(Step::Remove)
            },
        }
    }

    /// Takes the attributes of an item of a listing.
    fn take_item(self, list: &Vec<(String, String)>) -> (r: Session)
        ensures
            r@ == after_item(self@, owned_pairs(list@)),
    {
        let ghost before = self@;
        let total: usize = self.total;
        let mut session: Session = self;
        session.keys.push(entry(list));
        assert(session@.keys =~= before.keys.push(entry_of(owned_pairs(list@))));
        if session.keys.len() >= total {
            session.close_listing()
        } else {
            session
        }
    }

    /// Takes the secret of the item that was found.
    fn take_secret(self, bytes: Vec<u8>) -> (r: Session)
        ensures
            r@ == after_secret(self@, bytes@),
    {
        let mut buffer: Vec<u8> = bytes;
        match Secret::from_buffer(&mut buffer) {
            Some(secret) => self.end(Outcome::Released(secret)),
            None => self.end(
                Outcome::Failed(
                    BiometricError::Backend("stored passphrase is not valid UTF-8".to_owned()),
                ),
            ),
        }
    }

    /// Takes the reply to the call that was due.  A reply that does not answer
    /// it is ignored.
    pub fn reply(self, reply: Reply) -> (r: Session)
        ensures
            r@ == after(self@, reply@),
    {
        let step: Step = self.step;
        match reply {
            Reply::Done => match step {
                Step::Open => self.go(Step::Unlock),
                Step::Unlock => self.go_unlocked(),
                Step::Create => self.end(Outcome::Stored),
                Step::Remove => self.end(Outcome::Deleted),
                _ => self,
            },
            Reply::Failed(why) => match step {
                Step::Unlock => self.go_unlocked(),
                Step::Verify => self,
                Step::Finished => self,
                _ => self.end(Outcome::Failed(error_of(step, why))),
            },
            Reply::Found(count) => if step == Step::Search {
                self.take_count(count)
            } else {
                self
            },
            Reply::Verified(outcome) => if step == Step::Verify {
                match outcome {
                    Ok(_) => self.go(Step::ReadSecret),
                    Err(error) => self.end(Outcome::Failed(error)),
                }
            } else {
                self
            },
            Reply::Secret(bytes) => if step == Step::ReadSecret {
                self.take_secret(bytes)
            } else {
                self
            },
            Reply::Attributes(list) => if step == Step::Attributes {
                self.take_item(&list)
            } else {
                self
            },
        }
    }

    /// Moves on from the attempt to unlock the keyring.
    fn go_unlocked(self) -> (r: Session)
        ensures
            r@ == unlocked(self@),
    {
        if self.request == Request::Store {
            self.go(Step::Create)
        } else {
            self.go(Step::Search)
        }
    }

    /// How the session ended.
    pub fn outcome(self) -> (r: Outcome)
        ensures
            r@ == self@.outcome,
    {
        self.outcome
    }
}

/// A session after a sequence of replies.
pub open spec fn run(session: SessionView, replies: Seq<ReplyView>) -> SessionView
    decreases replies.len(),
{
    if replies.len() == 0 {
        session
    } else {
        run(after(session, replies[0]), replies.drop_first())
    }
}

/// The steps that a request may take.
pub open spec fn may_take(request: Request, step: Step) -> bool {
    match step {
        Step::Create => request == Request::Store,
        Step::Search => request != Request::Store,
        Step::Verify => request == Request::Retrieve,
        Step::ReadSecret => request == Request::Retrieve,
        Step::Remove => request == Request::Delete,
        Step::Attributes => request == Request::List,
        _ => true,
    }
}

/// What holds of a session at any time.
pub open spec fn proper(session: SessionView) -> bool {
    &&& may_take(session.request, session.step)
    &&& may_have(session.request, session.outcome)
    &&& session.step == Step::Finished <==> !(session.outcome is Pending)
}

/// Whatever the replies, a request keeps to its own steps and ends in its own
/// kind of outcome: only a release checks the fingerprint and reads a secret,
/// only a removal removes, only a store writes, and a listing does neither.
pub proof fn requests_keep_to_their_steps(request: Request, replies: Seq<ReplyView>)
    ensures
        proper(run(opened(request), replies)),
        run(opened(request), replies).request == request,
{
    lemma_stays_proper(opened(request), replies);
}

proof fn lemma_stays_proper(session: SessionView, replies: Seq<ReplyView>)
    requires
        proper(session),
    ensures
        proper(run(session, replies)),
        run(session, replies).request == session.request,
    decreases replies.len(),
{
    if replies.len() > 0 {
        lemma_stays_proper(after(session, replies[0]), replies.drop_first());
    }
}

/// The fingerprint prompt is raised only for a key that is enrolled: nothing but
/// a search that found an item leads to it.
pub proof fn no_prompt_without_enrollment(session: SessionView, reply: ReplyView)
    requires
        proper(session),
    ensures
        session.step != Step::Verify && after(session, reply).step == Step::Verify ==> {
            &&& session.step == Step::Search
            &&& reply matches ReplyView::Found(count)
            &&& count > 0
        },
        session.request == Request::Retrieve && session.step == Step::Search && reply
            == ReplyView::Found(0) ==> after(session, reply).outcome == OutcomeView::Failed(
            ErrorView::NotEnrolled,
        ),
{
}

/// A secret is read, and released, only after the fingerprint was verified.
pub proof fn no_release_without_verification(session: SessionView, reply: ReplyView)
    requires
        proper(session),
    ensures
        session.step != Step::ReadSecret && after(session, reply).step == Step::ReadSecret ==> {
            &&& session.step == Step::Verify
            &&& reply matches ReplyView::Verified(verdict)
            &&& verdict is Ok
        },
        !(session.outcome is Released) && after(session, reply).outcome is Released ==> session.step
            == Step::ReadSecret,
{
}

/// How the Secret Service matches: every attribute of the query occurs among
/// those of the item.
pub open spec fn matches_item(
    query: Seq<(Seq<char>, Seq<char>)>,
    item: Seq<(Seq<char>, Seq<char>)>,
) -> bool {
    forall|i: int| 0 <= i < query.len() ==> item.contains(#[trigger] query[i])
}

proof fn lemma_names()
    ensures
        APP_NAME@ != KEY_ID_NAME@,
        TYPE_NAME@ != KEY_ID_NAME@,
        FINGERPRINT_NAME@ != KEY_ID_NAME@,
        APP_NAME@ != FINGERPRINT_NAME@,
        TYPE_NAME@ != FINGERPRINT_NAME@,
        COMMENT_NAME@ != APP_NAME@,
        COMMENT_NAME@ != TYPE_NAME@,
        COMMENT_NAME@ != KEY_ID_NAME@,
        COMMENT_NAME@ != FINGERPRINT_NAME@,
{
    reveal_strlit("application");
    reveal_strlit("type");
    reveal_strlit("key-id");
    reveal_strlit("fingerprint");
    reveal_strlit("comment");
    assert(TYPE_NAME@.len() == 4);
    assert(KEY_ID_NAME@.len() == 6);
    assert(COMMENT_NAME@.len() == 7);
    assert(APP_NAME@[0] == 'a');
    assert(FINGERPRINT_NAME@[0] == 'f');
}

/// What was stored for a key is found again by the query for that key and by the
/// query for all keys.
pub proof fn stored_items_are_found(key_id: Seq<char>)
    ensures
        matches_item(key_attributes(key_id), key_attributes(key_id)),
        matches_item(common_attributes(), key_attributes(key_id)),
{
    let item = key_attributes(key_id);
    assert forall|i: int| 0 <= i < common_attributes().len() implies item.contains(
        #[trigger] common_attributes()[i],
    ) by {
        assert(item[i] == common_attributes()[i]);
    }
}

/// The query for a key finds the item of that key and of no other.
pub proof fn queries_find_their_own_key_only(key_id: Seq<char>, other: Seq<char>)
    ensures
        matches_item(key_attributes(key_id), key_attributes(other)) ==> key_id == other,
{
    lemma_names();
    let query = key_attributes(key_id);
    let item = key_attributes(other);
    assert(query[2] == (KEY_ID_NAME@, key_id));
    if matches_item(query, item) {
        assert(item.contains(query[2]));
        let i = choose|i: int| 0 <= i < item.len() && item[i] == query[2];
        assert(item[0].0 == APP_NAME@ && item[1].0 == TYPE_NAME@ && item[3].0 == FINGERPRINT_NAME@);
        assert(i == 2);
    }
}

/// A stored item is listed by the fingerprint of its key and without a comment,
/// and the identifier rebuilt from that listing is the one it was stored under.
/// This is what lets all enrollments be forgotten by listing them.
pub proof fn a_listing_leads_back_to_its_key(fingerprint: Seq<char>)
    ensures
        entry_of(key_attributes(key_id_of(fingerprint))) == (EnrolledKeyView {
            fingerprint,
            comment: None,
        }),
        key_id_of(entry_of(key_attributes(key_id_of(fingerprint))).fingerprint) == key_id_of(
            fingerprint,
        ),
{
    lemma_names();
    fingerprint_of_key_id(fingerprint);
    let item = key_attributes(key_id_of(fingerprint));
    let one = item.drop_first();
    let two = one.drop_first();
    let three = two.drop_first();
    assert(item.len() == 4);
    assert(one[0] == item[1] && two[0] == item[2] && three[0] == item[3]);
    assert(lookup(three.drop_first(), COMMENT_NAME@) is None);
    assert(lookup(three, COMMENT_NAME@) is None);
    assert(lookup(two, COMMENT_NAME@) is None);
    assert(lookup(one, COMMENT_NAME@) is None);
    assert(lookup(three, FINGERPRINT_NAME@) == Some(fingerprint));
    assert(lookup(two, FINGERPRINT_NAME@) == Some(fingerprint));
    assert(lookup(one, FINGERPRINT_NAME@) == Some(fingerprint));
}

/// What is stored is what is released: the secret of an item that holds the
/// UTF-8 form of a passphrase is released as that passphrase.
pub proof fn what_was_stored_is_released(session: SessionView, passphrase: Seq<char>)
    requires
        session.step == Step::ReadSecret,
    ensures
        after(session, ReplyView::Secret(encode_utf8(passphrase))).outcome == OutcomeView::Released(
            passphrase,
        ),
{
    encode_utf8_valid_utf8(passphrase);
    encode_utf8_decode_utf8(passphrase);
}

proof fn lemma_release_needs_verification(session: SessionView, replies: Seq<ReplyView>)
    requires
        proper(session),
        session.step != Step::ReadSecret,
        !(session.outcome is Released),
        run(session, replies).outcome is Released,
    ensures
        exists|i: int|
            0 <= i < replies.len() && (#[trigger] replies[i] matches ReplyView::Verified(verdict)
                && verdict is Ok),
    decreases replies.len(),
{
    if replies.len() > 0 {
        let next = after(session, replies[0]);
        let rest = replies.drop_first();
        if next.step == Step::ReadSecret {
            assert(replies[0] matches ReplyView::Verified(verdict) && verdict is Ok);
        } else {
            lemma_release_needs_verification(next, rest);
            let i = choose|i: int|
                0 <= i < rest.len() && (#[trigger] rest[i] matches ReplyView::Verified(verdict)
                    && verdict is Ok);
            assert(replies[i + 1] == rest[i]);
        }
    }
}

proof fn lemma_release_needs_enrollment(session: SessionView, replies: Seq<ReplyView>)
    requires
        proper(session),
        session.step == Step::Open || session.step == Step::Unlock || session.step == Step::Search
            || session.step == Step::Create || session.step == Step::Attributes || session.step
            == Step::Remove || session.step == Step::Finished,
        !(session.outcome is Released),
        run(session, replies).outcome is Released,
    ensures
        exists|i: int|
            0 <= i < replies.len() && (#[trigger] replies[i] matches ReplyView::Found(count)
                && count > 0),
    decreases replies.len(),
{
    if replies.len() > 0 {
        let next = after(session, replies[0]);
        let rest = replies.drop_first();
        if next.step == Step::Verify {
            assert(replies[0] matches ReplyView::Found(count) && count > 0);
        } else {
            lemma_release_needs_enrollment(next, rest);
            let i = choose|i: int|
                0 <= i < rest.len() && (#[trigger] rest[i] matches ReplyView::Found(count) && count
                    > 0);
            assert(replies[i + 1] == rest[i]);
        }
    }
}

/// In a whole session, from its beginning on: a passphrase is released only if
/// an item of the key was found and the fingerprint was verified.
pub proof fn a_release_was_verified(request: Request, replies: Seq<ReplyView>)
    requires
        run(opened(request), replies).outcome is Released,
    ensures
        exists|i: int|
            0 <= i < replies.len() && (#[trigger] replies[i] matches ReplyView::Found(count)
                && count > 0),
        exists|i: int|
            0 <= i < replies.len() && (#[trigger] replies[i] matches ReplyView::Verified(verdict)
                && verdict is Ok),
{
    lemma_release_needs_enrollment(opened(request), replies);
    lemma_release_needs_verification(opened(request), replies);
}

/// An item of the keyring.
pub struct ItemView {
    pub attributes: Seq<(Seq<char>, Seq<char>)>,
    pub secret: Seq<u8>,
}

/// The items that match a query, or those that do not, in their order.
pub open spec fn selected(
    items: Seq<ItemView>,
    query: Seq<(Seq<char>, Seq<char>)>,
    matching: bool,
) -> Seq<ItemView>
    decreases items.len(),
{
    if items.len() == 0 {
        Seq::empty()
    } else {
        let earlier = selected(items.drop_last(), query, matching);
        if matches_item(query, items.last().attributes) == matching {
            earlier.push(items.last())
        } else {
            earlier
        }
    }
}

/// What a search for the item of a key finds in a keyring.
pub open spec fn found(items: Seq<ItemView>, key_id: Seq<char>) -> Seq<ItemView> {
    selected(items, key_attributes(key_id), true)
}

/// A keyring after the item of a key was removed.
pub open spec fn removed(items: Seq<ItemView>, key_id: Seq<char>) -> Seq<ItemView> {
    selected(items, key_attributes(key_id), false)
}

/// The item that holds the passphrase of a key.
pub open spec fn item_for(key_id: Seq<char>, passphrase: Seq<char>) -> ItemView {
    ItemView { attributes: key_attributes(key_id), secret: encode_utf8(passphrase) }
}

/// A keyring after the passphrase of a key was stored.
pub open spec fn stored(
    items: Seq<ItemView>,
    key_id: Seq<char>,
    passphrase: Seq<char>,
) -> Seq<ItemView> {
    let kept = if REPLACE {
        removed(items, key_id)
    } else {
        items
    };
    kept.push(item_for(key_id, passphrase))
}

proof fn lemma_nothing_matches_after_removal(items: Seq<ItemView>, key_id: Seq<char>)
    ensures
        found(removed(items, key_id), key_id) == Seq::<ItemView>::empty(),
    decreases items.len(),
{
    if items.len() > 0 {
        let earlier = items.drop_last();
        lemma_nothing_matches_after_removal(earlier, key_id);
        let kept = removed(earlier, key_id);
        assert(kept.push(items.last()).drop_last() =~= kept);
    }
}

/// Storing overwrites: whatever the keyring held before, the session ends as
/// stored, and a search for the key then finds one item, which holds the
/// passphrase that was stored last.
pub proof fn storing_overwrites(
    items: Seq<ItemView>,
    key_id: Seq<char>,
    passphrase: Seq<char>,
    unlock: ReplyView,
)
    requires
        unlock is Done || unlock is Failed,
    ensures
        run(
            opened(Request::Store),
            seq![ReplyView::Done, unlock, ReplyView::Done],
        ).outcome == OutcomeView::Stored,
        found(stored(items, key_id, passphrase), key_id) == seq![item_for(key_id, passphrase)],
{
    let kept = removed(items, key_id);
    let item = item_for(key_id, passphrase);
    lemma_nothing_matches_after_removal(items, key_id);
    stored_items_are_found(key_id);
    assert(kept.push(item).drop_last() =~= kept);
    assert(Seq::<ItemView>::empty().push(item) =~= seq![item]);
    let replies = seq![ReplyView::Done, unlock, ReplyView::Done];
    let unlocking = moved(opened(Request::Store), Step::Unlock);
    let creating = moved(unlocking, Step::Create);
    let one = replies.drop_first();
    let two = one.drop_first();
    let last = after(creating, two[0]);
    assert(one[0] == unlock);
    assert(two.drop_first().len() == 0);
    assert(run(last, two.drop_first()) == last);
    assert(run(creating, two) == last);
    assert(run(unlocking, one) == last);
}

/// The replies of a keyring to a release whose fingerprint check succeeds.
pub open spec fn release_replies(
    items: Seq<ItemView>,
    key_id: Seq<char>,
    unlock: ReplyView,
) -> Seq<ReplyView> {
    let matching = found(items, key_id);
    seq![
        ReplyView::Done,
        unlock,
        ReplyView::Found(matching.len() as usize),
        ReplyView::Verified(Ok(())),
        ReplyView::Secret(matching[0].secret),
    ]
}

/// Two passphrases are stored for a key, one after the other: a release whose
/// fingerprint check succeeds then gives back the second one, unchanged.
pub proof fn a_second_store_replaces_the_first(
    items: Seq<ItemView>,
    key_id: Seq<char>,
    first: Seq<char>,
    second: Seq<char>,
    unlock: ReplyView,
)
    requires
        unlock is Done || unlock is Failed,
    ensures
        ({
            let twice = stored(stored(items, key_id, first), key_id, second);
            &&& found(twice, key_id) == seq![item_for(key_id, second)]
            &&& run(opened(Request::Retrieve), release_replies(twice, key_id, unlock)).outcome
                == OutcomeView::Released(second)
        }),
{
    let once = stored(items, key_id, first);
    let twice = stored(once, key_id, second);
    storing_overwrites(once, key_id, second, unlock);
    let replies = release_replies(twice, key_id, unlock);
    let searching = moved(opened(Request::Retrieve), Step::Search);
    let verifying = moved(searching, Step::Verify);
    let reading = moved(searching, Step::ReadSecret);
    what_was_stored_is_released(reading, second);
    let one = replies.drop_first();
    let two = one.drop_first();
    let three = two.drop_first();
    let four = three.drop_first();
    assert(one[0] == unlock && two[0] == ReplyView::Found(1));
    assert(three[0] == ReplyView::Verified(Ok(())));
    assert(four[0] == ReplyView::Secret(encode_utf8(second)));
    let last = after(reading, four[0]);
    assert(four.drop_first().len() == 0);
    assert(run(last, four.drop_first()) == last);
    assert(run(reading, four) == last);
    assert(run(verifying, three) == last);
    assert(run(searching, two) == last);
    assert(run(moved(opened(Request::Retrieve), Step::Unlock), one) == last);
}

/// A stale enrollment is reported once.  Its item was removed, and nothing was
/// stored for the key since: the next release finds nothing and ends as "not
/// enrolled" without a fingerprint prompt, so that load falls back to the
/// passphrase prompt and deletes nothing.
pub proof fn a_stale_enrollment_is_reported_once(
    items: Seq<ItemView>,
    pem: Seq<char>,
    unlock: ReplyView,
)
    requires
        unlock is Done || unlock is Failed,
    ensures
        ({
            let key_id = key_id_of(private_key_fingerprint(pem));
            let count = found(removed(items, key_id), key_id).len() as usize;
            let replies = seq![ReplyView::Done, unlock, ReplyView::Found(count)];
            &&& run(opened(Request::Retrieve), replies).outcome == OutcomeView::Failed(
                ErrorView::NotEnrolled,
            )
            &&& forall|n: int|
                0 <= n <= 3 ==> run(opened(Request::Retrieve), #[trigger] replies.take(n)).step
                    != Step::Verify
        }),
        unlock_outcome(pem, Err(ErrorView::NotEnrolled)) == AutoUnlockView::Fallback,
        enrollment_to_forget(pem, unlock_outcome(pem, Err(ErrorView::NotEnrolled))) is None,
{
    let key_id = key_id_of(private_key_fingerprint(pem));
    lemma_nothing_matches_after_removal(items, key_id);
    let replies = seq![ReplyView::Done, unlock, ReplyView::Found(0)];
    let start = opened(Request::Retrieve);
    let searching = moved(start, Step::Search);
    let one = replies.drop_first();
    let two = one.drop_first();
    let last = after(searching, two[0]);
    assert(one[0] == unlock && two[0] == ReplyView::Found(0));
    assert(two.drop_first().len() == 0);
    assert(run(last, two.drop_first()) == last);
    assert(run(searching, two) == last);
    assert(run(moved(start, Step::Unlock), one) == last);
    assert forall|n: int| 0 <= n <= 3 implies run(start, #[trigger] replies.take(n)).step
        != Step::Verify by {
        let prefix = replies.take(n);
        if n == 1 {
            assert(prefix.drop_first().len() == 0);
            assert(run(moved(start, Step::Unlock), prefix.drop_first()) == moved(
                start,
                Step::Unlock,
            ));
        } else if n == 2 {
            let rest = prefix.drop_first();
            assert(rest[0] == unlock);
            assert(rest.drop_first().len() == 0);
            assert(run(searching, rest.drop_first()) == searching);
            assert(run(moved(start, Step::Unlock), rest) == searching);
        } else if n == 3 {
            assert(prefix =~= replies);
        }
    }
}

/// What answers a call: every call may succeed or fail, in its own way, except
/// that the fingerprint check has a verdict; a finished session takes no answer.
pub open spec fn answers(step: Step, reply: ReplyView) -> bool {
    match reply {
        ReplyView::Done => step == Step::Open || step == Step::Unlock || step == Step::Create
            || step == Step::Remove,
        ReplyView::Failed(_) => step != Step::Verify && step != Step::Finished,
        ReplyView::Found(_) => step == Step::Search,
        ReplyView::Verified(_) => step == Step::Verify,
        ReplyView::Secret(_) => step == Step::ReadSecret,
        ReplyView::Attributes(_) => step == Step::Attributes,
    }
}

/// A reply that does not answer the call that is due, and any reply to a session
/// that is over, changes nothing.
pub proof fn only_answers_change_a_session(session: SessionView, reply: ReplyView)
    requires
        !answers(session.step, reply),
    ensures
        after(session, reply) == session,
{
}

/// What makes each call due.
pub proof fn every_step_has_its_cause(session: SessionView, reply: ReplyView)
    requires
        proper(session),
    ensures
        ({
            let next = after(session, reply);
            let found = session.step == Step::Search && (reply matches ReplyView::Found(count)
                && count > 0);
            let unlocked = session.step == Step::Unlock && (reply is Done || reply is Failed);
            &&& next.request == session.request
            &&& session.step != Step::Open ==> next.step != Step::Open
            &&& session.step != Step::Unlock ==> (next.step == Step::Unlock <==> session.step
                == Step::Open && reply is Done)
            &&& session.step != Step::Create ==> (next.step == Step::Create <==> unlocked
                && session.request == Request::Store)
            &&& session.step != Step::Search ==> (next.step == Step::Search <==> unlocked
                && session.request != Request::Store)
            &&& session.step != Step::Verify ==> (next.step == Step::Verify <==> found
                && session.request == Request::Retrieve)
            &&& session.step != Step::ReadSecret ==> (next.step == Step::ReadSecret
                <==> session.step == Step::Verify && (reply matches ReplyView::Verified(verdict)
                && verdict is Ok))
            &&& session.step != Step::Remove ==> (next.step == Step::Remove <==> found
                && session.request == Request::Delete)
            &&& session.step != Step::Attributes ==> (next.step == Step::Attributes <==> found
                && session.request == Request::List)
        }),
{
}

/// What ends a session, and how.
pub proof fn every_outcome_has_its_cause(session: SessionView, reply: ReplyView)
    requires
        proper(session),
        session.outcome is Pending,
    ensures
        ({
            let outcome = after(session, reply).outcome;
            let nothing = session.step == Step::Search && (reply matches ReplyView::Found(count)
                && count == 0);
            &&& outcome is Stored <==> session.step == Step::Create && reply is Done
            &&& outcome is Deleted <==> session.step == Step::Remove && reply is Done
            &&& outcome is Released <==> session.step == Step::ReadSecret && (
            reply matches ReplyView::Secret(bytes) && valid_utf8(bytes))
            &&& outcome is Listed <==> (nothing && session.request == Request::List) || (
            session.step == Step::Attributes && reply is Attributes && session.keys.len() + 1
                >= session.total)
            &&& outcome is Failed <==> {
                ||| nothing && session.request != Request::List
                ||| session.step == Step::Verify && (reply matches ReplyView::Verified(verdict)
                    && verdict is Err)
                ||| session.step == Step::ReadSecret && (reply matches ReplyView::Secret(bytes)
                    && !valid_utf8(bytes))
                ||| reply is Failed && session.step != Step::Unlock && session.step != Step::Verify
            }
        }),
{
}

/// What a session that ends gives back: the passphrase that was read, the keys
/// that were read, or the error of the call that failed.
pub proof fn outcomes_carry_what_was_read(session: SessionView, reply: ReplyView)
    requires
        proper(session),
        session.outcome is Pending,
    ensures
        ({
            let next = after(session, reply);
            match (session.step, reply) {
                (Step::ReadSecret, ReplyView::Secret(bytes)) => next.outcome == if valid_utf8(
                    bytes,
                ) {
                    OutcomeView::Released(decode_utf8(bytes))
                } else {
                    OutcomeView::Failed(
                        ErrorView::Backend("stored passphrase is not valid UTF-8"@),
                    )
                },
                (Step::Search, ReplyView::Found(count)) => {
                    &&& count == 0 && session.request == Request::List ==> next.outcome
                        == OutcomeView::Listed(session.keys)
                    &&& count == 0 && session.request != Request::List ==> next.outcome
                        == OutcomeView::Failed(ErrorView::NotEnrolled)
                    &&& count > 0 ==> next.outcome is Pending && next.keys == session.keys
                    &&& count > 0 && session.request == Request::List ==> next.total == count
                },
                (Step::Attributes, ReplyView::Attributes(list)) => {
                    &&& next.total == session.total
                    &&& session.keys.len() + 1 < session.total ==> next.keys == session.keys.push(
                        entry_of(list),
                    ) && next.step == Step::Attributes && next.outcome is Pending
                    &&& session.keys.len() + 1 >= session.total ==> next.outcome
                        == OutcomeView::Listed(session.keys.push(entry_of(list)))
                },
                (Step::Verify, ReplyView::Verified(Err(error))) => next.outcome
                    == OutcomeView::Failed(error),
                (Step::Open, ReplyView::Failed(why)) => next.outcome == OutcomeView::Failed(
                    ErrorView::Unavailable("keyring: "@ + why),
                ),
                (Step::Create, ReplyView::Failed(why)) => next.outcome == OutcomeView::Failed(
                    ErrorView::Backend("keyring write: "@ + why),
                ),
                (Step::Search, ReplyView::Failed(why)) => next.outcome == OutcomeView::Failed(
                    ErrorView::Backend("keyring search: "@ + why),
                ),
                (Step::ReadSecret, ReplyView::Failed(why)) => next.outcome == OutcomeView::Failed(
                    ErrorView::Backend("keyring read: "@ + why),
                ),
                (Step::Remove, ReplyView::Failed(why)) => next.outcome == OutcomeView::Failed(
                    ErrorView::Backend("keyring delete: "@ + why),
                ),
                (Step::Attributes, ReplyView::Failed(why)) => next.outcome == OutcomeView::Failed(
                    ErrorView::Backend("keyring attributes: "@ + why),
                ),
                (_, _) => next.keys == session.keys,
            }
        }),
{
}

/// A session that is over takes no further reply, however many come.
pub proof fn a_finished_session_stays_as_it_is(session: SessionView, replies: Seq<ReplyView>)
    requires
        session.step == Step::Finished,
    ensures
        run(session, replies) == session,
    decreases replies.len(),
{
    if replies.len() > 0 {
        a_finished_session_stays_as_it_is(session, replies.drop_first());
    }
}

/// Whether the keyring could be unlocked makes no difference to anything that
/// follows: many setups unlock it at login.
pub proof fn unlocking_makes_no_difference(
    session: SessionView,
    why: Seq<char>,
    replies: Seq<ReplyView>,
)
    requires
        session.step == Step::Unlock,
    ensures
        run(session, seq![ReplyView::Done] + replies) == run(
            session,
            seq![ReplyView::Failed(why)] + replies,
        ),
        !(after(session, ReplyView::Done).step is Finished),
        after(session, ReplyView::Done).outcome == session.outcome,
{
    let opened = seq![ReplyView::Done] + replies;
    let locked = seq![ReplyView::Failed(why)] + replies;
    assert(opened.drop_first() =~= replies);
    assert(locked.drop_first() =~= replies);
    assert(opened[0] == ReplyView::Done);
    assert(locked[0] == ReplyView::Failed(why));
}

/// The reply that ended a session.
proof fn lemma_last_reply(session: SessionView, replies: Seq<ReplyView>) -> (last: int)
    requires
        proper(session),
        session.outcome is Pending,
        !(run(session, replies).outcome is Pending),
    ensures
        0 <= last < replies.len(),
        run(session, replies.take(last)).outcome is Pending,
        proper(run(session, replies.take(last))),
        run(session, replies.take(last)).request == session.request,
        after(run(session, replies.take(last)), replies[last]) == run(session, replies),
    decreases replies.len(),
{
    let next = after(session, replies[0]);
    let rest = replies.drop_first();
    if next.outcome is Pending {
        let i = lemma_last_reply(next, rest);
        assert(replies.take(i + 1).drop_first() =~= rest.take(i));
        assert(replies.take(i + 1)[0] == replies[0]);
        assert(rest[i] == replies[i + 1]);
        lemma_stays_proper(session, replies.take(i + 1));
        i + 1
    } else {
        a_finished_session_stays_as_it_is(next, rest);
        assert(replies.take(0).len() == 0);
        0
    }
}

/// A removal is due only once an item was found.
proof fn lemma_removal_was_found(session: SessionView, replies: Seq<ReplyView>)
    requires
        proper(session),
        session.step != Step::Remove,
        run(session, replies).step == Step::Remove,
    ensures
        exists|i: int|
            {
                &&& 0 <= i < replies.len()
                &&& run(session, replies.take(i)).step == Step::Search
                &&& #[trigger] replies[i] matches ReplyView::Found(count)
                &&& count > 0
            },
    decreases replies.len(),
{
    let next = after(session, replies[0]);
    let rest = replies.drop_first();
    assert(replies.len() > 0);
    lemma_stays_proper(session, replies.take(1));
    assert(replies.take(1).drop_first().len() == 0);
    assert(run(next, replies.take(1).drop_first()) == next);
    if next.step == Step::Remove {
        assert(replies.take(0).len() == 0);
        assert(replies[0] matches ReplyView::Found(count) && count > 0);
    } else {
        lemma_removal_was_found(next, rest);
        let i = choose|i: int|
            {
                &&& 0 <= i < rest.len()
                &&& run(next, rest.take(i)).step == Step::Search
                &&& #[trigger] rest[i] matches ReplyView::Found(count)
                &&& count > 0
            };
        assert(replies.take(i + 1).drop_first() =~= rest.take(i));
        assert(replies.take(i + 1)[0] == replies[0]);
        assert(replies[i + 1] == rest[i]);
    }
}

/// In a whole session, from its beginning on: a key counts as removed only if a
/// search found an item of it and the call that removes it, made after that,
/// succeeded; that call was the last thing that happened.
pub proof fn a_deletion_removed_an_item(request: Request, replies: Seq<ReplyView>)
    requires
        run(opened(request), replies).outcome is Deleted,
    ensures
        request == Request::Delete,
        exists|i: int, last: int|
            {
                &&& 0 <= i < last < replies.len()
                &&& #[trigger] replies[i] matches ReplyView::Found(count)
                &&& count > 0
                &&& run(opened(request), replies.take(i)).step == Step::Search
                &&& run(opened(request), replies.take(last)).step == Step::Remove
                &&& #[trigger] replies[last] is Done
                &&& run(opened(request), replies.take(last + 1)) == run(opened(request), replies)
            },
{
    let start = opened(request);
    let last = lemma_last_reply(start, replies);
    let before = replies.take(last);
    every_outcome_has_its_cause(run(start, before), replies[last]);
    lemma_removal_was_found(start, before);
    let i = choose|i: int|
        {
            &&& 0 <= i < before.len()
            &&& run(start, before.take(i)).step == Step::Search
            &&& #[trigger] before[i] matches ReplyView::Found(count)
            &&& count > 0
        };
    assert(before.take(i) =~= replies.take(i));
    assert(before[i] == replies[i]);
    lemma_run_of_one_more(start, replies, last);
    assert(replies[last] is Done);
}

/// A sequence of replies is taken one by one.
proof fn lemma_run_of_one_more(session: SessionView, replies: Seq<ReplyView>, n: int)
    requires
        0 <= n < replies.len(),
    ensures
        run(session, replies.take(n + 1)) == after(run(session, replies.take(n)), replies[n]),
    decreases n,
{
    let rest = replies.drop_first();
    let more = replies.take(n + 1);
    assert(more[0] == replies[0]);
    assert(more.drop_first() =~= rest.take(n));
    if n > 0 {
        assert(replies.take(n)[0] == replies[0]);
        assert(replies.take(n).drop_first() =~= rest.take(n - 1));
        lemma_run_of_one_more(after(session, replies[0]), rest, n - 1);
        assert(rest[n - 1] == replies[n]);
    } else {
        let next = after(session, replies[0]);
        assert(rest.take(0).len() == 0);
        assert(replies.take(0).len() == 0);
        assert(run(next, rest.take(0)) == next);
        assert(run(session, replies.take(0)) == session);
    }
}

/// In a whole session, from its beginning on: a passphrase counts as stored only
/// if the call that writes it was made and succeeded.
pub proof fn a_store_wrote_its_item(request: Request, replies: Seq<ReplyView>)
    requires
        run(opened(request), replies).outcome is Stored,
    ensures
        request == Request::Store,
        exists|last: int|
            {
                &&& 0 <= last < replies.len()
                &&& run(opened(request), replies.take(last)).step == Step::Create
                &&& #[trigger] replies[last] is Done
            },
{
    let last = lemma_last_reply(opened(request), replies);
    every_outcome_has_its_cause(run(opened(request), replies.take(last)), replies[last]);
    assert(replies[last] is Done);
}

/// In a whole session, from its beginning on: a passphrase that is released is
/// the text of the secret that was read last.
pub proof fn a_release_gives_what_was_read(request: Request, replies: Seq<ReplyView>)
    requires
        run(opened(request), replies).outcome is Released,
    ensures
        request == Request::Retrieve,
        exists|last: int|
            {
                &&& 0 <= last < replies.len()
                &&& run(opened(request), replies.take(last)).step == Step::ReadSecret
                &&& #[trigger] replies[last] matches ReplyView::Secret(bytes)
                &&& valid_utf8(bytes)
                &&& run(opened(request), replies).outcome == OutcomeView::Released(
                    decode_utf8(bytes),
                )
            },
{
    let last = lemma_last_reply(opened(request), replies);
    every_outcome_has_its_cause(run(opened(request), replies.take(last)), replies[last]);
    assert(replies[last] is Secret);
}

/// The attributes of the items that were read while a sequence of replies came
/// in.
pub open spec fn items_read(session: SessionView, replies: Seq<ReplyView>) -> Seq<
    Seq<(Seq<char>, Seq<char>)>,
>
    decreases replies.len(),
{
    if replies.len() == 0 {
        Seq::empty()
    } else {
        let rest = items_read(after(session, replies[0]), replies.drop_first());
        match replies[0] {
            ReplyView::Attributes(list) => if session.step == Step::Attributes {
                seq![list] + rest
            } else {
                rest
            },
            _ => rest,
        }
    }
}

proof fn lemma_listing(session: SessionView, replies: Seq<ReplyView>)
    requires
        proper(session),
        session.step != Step::Finished,
        session.step == Step::Attributes ==> session.keys.len() < session.total,
        session.step != Step::Attributes ==> session.keys.len() == 0 && session.total == 0,
        run(session, replies).outcome is Listed,
    ensures
        ({
            let items = items_read(session, replies);
            let keys = run(session, replies).outcome->Listed_0;
            &&& keys.len() == session.keys.len() + items.len()
            &&& keys.len() == run(session, replies).total
            &&& forall|i: int|
                0 <= i < session.keys.len() ==> #[trigger] keys[i] == session.keys[i]
            &&& forall|i: int|
                session.keys.len() <= i < keys.len() ==> #[trigger] keys[i] == entry_of(
                    items[i - session.keys.len()],
                )
        }),
    decreases replies.len(),
{
    assert(replies.len() > 0);
    let next = after(session, replies[0]);
    let rest = replies.drop_first();
    if next.step == Step::Finished {
        a_finished_session_stays_as_it_is(next, rest);
        lemma_nothing_more_is_read(next, rest);
    } else {
        lemma_listing(next, rest);
        let items = items_read(session, replies);
        let keys = run(session, replies).outcome->Listed_0;
        if session.step == Step::Attributes && replies[0] is Attributes {
            assert(keys[session.keys.len() as int] == next.keys[session.keys.len() as int]);
            assert forall|i: int| session.keys.len() <= i < keys.len() implies #[trigger] keys[i]
                == entry_of(items[i - session.keys.len()]) by {
                if i > session.keys.len() {
                    assert(items[i - session.keys.len()] == items_read(next, rest)[i
                        - next.keys.len()]);
                }
            }
            assert forall|i: int| 0 <= i < session.keys.len() implies #[trigger] keys[i]
                == session.keys[i] by {
                assert(keys[i] == next.keys[i]);
            }
        }
    }
}

proof fn lemma_nothing_more_is_read(session: SessionView, replies: Seq<ReplyView>)
    requires
        session.step == Step::Finished,
    ensures
        items_read(session, replies).len() == 0,
    decreases replies.len(),
{
    if replies.len() > 0 {
        lemma_nothing_more_is_read(session, replies.drop_first());
    }
}

/// In a whole session, from its beginning on: a listing holds one entry for each
/// of the items that were read, in their order, and as many as the search found.
pub proof fn a_listing_holds_every_item(replies: Seq<ReplyView>)
    requires
        run(opened(Request::List), replies).outcome is Listed,
    ensures
        ({
            let end = run(opened(Request::List), replies);
            let items = items_read(opened(Request::List), replies);
            let keys = end.outcome->Listed_0;
            &&& keys.len() == items.len()
            &&& keys.len() == end.total
            &&& forall|i: int| 0 <= i < keys.len() ==> #[trigger] keys[i] == entry_of(items[i])
        }),
{
    lemma_listing(opened(Request::List), replies);
}

/// A session begins by opening the keyring, with nothing read.
pub proof fn sessions_begin_at_the_beginning(request: Request)
    ensures
        opened(request).request == request,
        opened(request).step == Step::Open,
        opened(request).keys.len() == 0,
        opened(request).total == 0,
        opened(request).outcome is Pending,
        proper(opened(request)),
{
}

/// An item of ours is marked as a passphrase of this application, names its key
/// by identifier and by fingerprint, and is labelled by the fingerprint.
pub proof fn items_name_their_key(fingerprint: Seq<char>)
    ensures
        key_attributes(key_id_of(fingerprint)) == seq![
            ("application"@, "gitway"@),
            ("type"@, "ssh-passphrase"@),
            ("key-id"@, key_id_of(fingerprint)),
            ("fingerprint"@, fingerprint),
        ],
        common_attributes() == seq![("application"@, "gitway"@), ("type"@, "ssh-passphrase"@)],
        label_of(key_id_of(fingerprint)) == "Gitway SSH passphrase ("@ + fingerprint + ")"@,
{
    fingerprint_of_key_id(fingerprint);
}

/// An item is listed by its fingerprint attribute where it has one, else by the
/// fingerprint in its key identifier, with its comment where it has one.
pub proof fn items_are_listed_by_fingerprint(
    list: Seq<(Seq<char>, Seq<char>)>,
    fingerprint: Seq<char>,
)
    ensures
        lookup(list, "fingerprint"@) is Some ==> Some(entry_of(list).fingerprint) == lookup(
            list,
            "fingerprint"@,
        ),
        lookup(list, "fingerprint"@) is None && lookup(list, "key-id"@) == Some(
            key_id_of(fingerprint),
        ) ==> entry_of(list).fingerprint == fingerprint,
        lookup(list, "fingerprint"@) is None && lookup(list, "key-id"@) is None ==> entry_of(
            list,
        ).fingerprint.len() == 0,
        entry_of(list).comment == lookup(list, "comment"@),
{
    fingerprint_of_key_id(fingerprint);
}

/// A listing searches for the items of all keys; any other request finds the item
/// of its own key and of no other.
pub proof fn requests_search_for_their_key(
    request: Request,
    key_id: &str,
    other: Seq<char>,
    r: Vec<(&str, &str)>,
)
    requires
        call_ensures(query, (request, key_id), r),
    ensures
        matches_item(pairs(r@), key_attributes(other)) <==> request == Request::List || other
            == key_id@,
{
    stored_items_are_found(other);
    queries_find_their_own_key_only(key_id@, other);
}

/// A session that is driven by calls is the session that its replies make, and its
/// outcome is the one that they lead to.
pub proof fn sessions_follow_their_replies(
    request: Request,
    start: Session,
    one: Reply,
    next: Session,
    two: Reply,
    last: Session,
    outcome: Outcome,
)
    requires
        call_ensures(Session::start, (request,), start),
        call_ensures(Session::reply, (start, one), next),
        call_ensures(Session::reply, (next, two), last),
        call_ensures(Session::outcome, (last,), outcome),
    ensures
        last@ == run(opened(request), seq![one@, two@]),
        outcome@ == run(opened(request), seq![one@, two@]).outcome,
        forall|step: Step| #[trigger]
            call_ensures(Session::step, (&last,), step) ==> step == last@.step,
        forall|count: usize| #[trigger]
            call_ensures(Session::position, (&last,), count) ==> count == last@.keys.len(),
{
    let replies = seq![one@, two@];
    let rest = replies.drop_first();
    assert(rest[0] == two@);
    assert(rest.drop_first().len() == 0);
    assert(run(last@, rest.drop_first()) == last@);
    assert(run(next@, rest) == last@);
}

/// A reply is seen as it is: what was found, verified or read, or why it was not, and
/// nothing else.
pub proof fn replies_are_seen_as_they_are(reply: Reply)
    ensures
        match reply {
            Reply::Done => reply@ is Done,
            Reply::Failed(why) => reply@ == ReplyView::Failed(why@),
            Reply::Found(count) => reply@ == ReplyView::Found(count),
            Reply::Verified(Ok(_)) => reply@ matches ReplyView::Verified(verdict) && verdict is Ok,
            Reply::Verified(Err(error)) => reply@ == ReplyView::Verified(Err(error@)),
            Reply::Secret(bytes) => reply@ == ReplyView::Secret(bytes@),
            Reply::Attributes(list) => reply@ matches ReplyView::Attributes(pairs) && pairs.len()
                == list@.len() && forall|i: int|
                0 <= i < pairs.len() ==> #[trigger] pairs[i] == (list@[i].0@, list@[i].1@),
        },
{
}

} // verus!
