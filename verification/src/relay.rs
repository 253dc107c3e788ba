//! The relay: sessions that a sender opens and a receiver joins.
use vstd::prelude::*;
use crate::error::TransferError;
use crate::text::push_char;

verus! {

/// A message between a relay and its clients.
#[derive(Debug, PartialEq, Eq)]
pub struct RelayMessage {
    pub message_type: String,
    pub session_id: String,
    pub data: Vec<u8>,
}

impl RelayMessage {
    /// The message a sender opens a relay connection with.
    pub fn sender_init() -> (m: RelayMessage)
        ensures
            m.message_type@ == "sender_init"@,
            m.session_id@ == Seq::<char>::empty(),
            m.data@ == Seq::<u8>::empty(),
    {
        RelayMessage { message_type: "sender_init".to_owned(), session_id: String::new(), data: Vec::new() }
    }

    /// The message a receiver opens a relay connection with, naming the session.
    pub fn receiver_init(session_id: String) -> (m: RelayMessage)
        ensures
            m.message_type@ == "receiver_init"@,
            m.session_id@ == session_id@,
            m.data@ == Seq::<u8>::empty(),
    {
        RelayMessage { message_type: "receiver_init".to_owned(), session_id, data: Vec::new() }
    }

    /// The relay's answer to a sender: the session it created.
    pub fn session_created(session_id: String) -> (m: RelayMessage)
        ensures
            m.message_type@ == "session_created"@,
            m.session_id@ == session_id@,
            m.data@ == Seq::<u8>::empty(),
    {
        RelayMessage { message_type: "session_created".to_owned(), session_id, data: Vec::new() }
    }
}

/// One relay session and who has joined it.
#[derive(Debug, PartialEq, Eq)]
pub struct RelaySession {
    pub session_id: String,
    pub sender_connected: bool,
    pub receiver_connected: bool,
}

/// The sessions a relay knows, each under its own id.
pub struct RelayRegistry {
    sessions: Vec<RelaySession>,
}

/// What a relay does with a client's opening message.
#[derive(Debug, PartialEq, Eq)]
pub enum RelayOutcome {
    /// A sender opened a new session; the reply tells it the session's id.
    SenderRegistered { reply: RelayMessage },
    /// A receiver joined the existing session with this id.
    ReceiverJoined { session_id: String },
}

impl View for RelayRegistry {
    /// For every session id: whether a sender and whether a receiver has joined.
    type V = Map<Seq<char>, (bool, bool)>;

    closed spec fn view(&self) -> Map<Seq<char>, (bool, bool)> {
        Map::new(
            |k: Seq<char>| exists|i: int| 0 <= i < self.sessions@.len() && #[trigger] self.sessions@[i].session_id@ == k,
            |k: Seq<char>| {
                let i = choose|i: int| 0 <= i < self.sessions@.len() && #[trigger] self.sessions@[i].session_id@ == k;
                (self.sessions@[i].sender_connected, self.sessions@[i].receiver_connected)
            },
        )
    }
}

impl RelayRegistry {
    /// No two sessions share an id.
    pub closed spec fn wf(&self) -> bool {
        forall|i: int, j: int|
            0 <= i < j < self.sessions@.len() ==> #[trigger] self.sessions@[i].session_id@
                != #[trigger] self.sessions@[j].session_id@
    }

    proof fn lemma_view_at(&self, i: int)
        requires
            self.wf(),
            0 <= i < self.sessions@.len(),
        ensures
            self@.contains_key(self.sessions@[i].session_id@),
            self@[self.sessions@[i].session_id@] == (
                self.sessions@[i].sender_connected,
                self.sessions@[i].receiver_connected,
            ),
    {
        let k = self.sessions@[i].session_id@;
        assert(self@.contains_key(k));
        let j = choose|j: int| 0 <= j < self.sessions@.len() && #[trigger] self.sessions@[j].session_id@ == k;
        if i < j {
            assert(self.sessions@[i].session_id@ != self.sessions@[j].session_id@);
        } else if j < i {
            assert(self.sessions@[j].session_id@ != self.sessions@[i].session_id@);
        }
    }

    /// A relay with no sessions.
    pub fn new() -> (r: RelayRegistry)
        ensures
            r.wf(),
            r@ == Map::<Seq<char>, (bool, bool)>::empty(),
    {
        let r = RelayRegistry { sessions: Vec::new() };
        assert(r@ =~= Map::<Seq<char>, (bool, bool)>::empty());
        r
    }

    fn find(&self, id: &String) -> (r: Option<usize>)
        requires
            self.wf(),
        ensures
            match r {
                Some(i) => i < self.sessions@.len() && self.sessions@[i as int].session_id@ == id@,
                None => !self@.contains_key(id@),
            },
    {
        let mut i: usize = 0;
        while i < self.sessions.len()
            invariant
                i <= self.sessions@.len(),
                forall|j: int| 0 <= j < i ==> #[trigger] self.sessions@[j].session_id@ != id@,
            decreases self.sessions@.len() - i,
        {
            if self.sessions[i].session_id == *id {
                return Some(i);
            }
            i = i + 1;
        }
        None
    }

    /// The session `id` is known.
    pub fn has_session(&self, id: &String) -> (b: bool)
        requires
            self.wf(),
        ensures
            b == self@.contains_key(id@),
    {
        match self.find(id) {
            Some(i) => {
                proof {
                    self.lemma_view_at(i as int);
                }
                true
            },
            None => false,
        }
    }

    /// A receiver has joined session `id`.
    pub fn receiver_connected(&self, id: &String) -> (b: bool)
        requires
            self.wf(),
        ensures
            b == (self@.contains_key(id@) && self@[id@].1),
    {
        match self.find(id) {
            Some(i) => {
                proof {
                    self.lemma_view_at(i as int);
                }
                self.sessions[i].receiver_connected
            },
            None => false,
        }
    }

    proof fn lemma_set_session(old_r: &RelayRegistry, new_r: &RelayRegistry, i: int, s: RelaySession)
        requires
            old_r.wf(),
            0 <= i < old_r.sessions@.len(),
            old_r.sessions@[i].session_id@ == s.session_id@,
            new_r.sessions@ == old_r.sessions@.update(i, s),
        ensures
            new_r.wf(),
            new_r@ == old_r@.insert(s.session_id@, (s.sender_connected, s.receiver_connected)),
    {
        let k = s.session_id@;
        assert(new_r.wf()) by {
            assert forall|a: int, b: int|
                0 <= a < b < new_r.sessions@.len() implies #[trigger] new_r.sessions@[a].session_id@
                != #[trigger] new_r.sessions@[b].session_id@ by {
                assert(old_r.sessions@[a].session_id@ != old_r.sessions@[b].session_id@);
            }
        }
        let expected = old_r@.insert(k, (s.sender_connected, s.receiver_connected));
        assert forall|key: Seq<char>| #[trigger] new_r@.contains_key(key) <==> expected.contains_key(
            key,
        ) by {
            if new_r@.contains_key(key) {
                let j = choose|j: int| 0 <= j < new_r.sessions@.len() && #[trigger] new_r.sessions@[j].session_id@ == key;
                if j != i {
                    assert(old_r.sessions@[j].session_id@ == key);
                }
            }
            if expected.contains_key(key) && key != k {
                let j = choose|j: int| 0 <= j < old_r.sessions@.len() && #[trigger] old_r.sessions@[j].session_id@ == key;
                assert(new_r.sessions@[j].session_id@ == key);
            }
            if key == k {
                assert(new_r.sessions@[i].session_id@ == key);
            }
        }
        assert forall|key: Seq<char>| #[trigger] new_r@.contains_key(key) implies new_r@[key]
            == expected[key] by {
            let j = choose|j: int| 0 <= j < new_r.sessions@.len() && #[trigger] new_r.sessions@[j].session_id@ == key;
            new_r.lemma_view_at(j);
            if j != i {
                old_r.lemma_view_at(j);
            }
        }
        assert(new_r@ =~= expected);
    }

    proof fn lemma_push_session(old_r: &RelayRegistry, new_r: &RelayRegistry, s: RelaySession)
        requires
            old_r.wf(),
            !old_r@.contains_key(s.session_id@),
            new_r.sessions@ == old_r.sessions@.push(s),
        ensures
            new_r.wf(),
            new_r@ == old_r@.insert(s.session_id@, (s.sender_connected, s.receiver_connected)),
    {
        let k = s.session_id@;
        let n = old_r.sessions@.len() as int;
        assert forall|a: int| 0 <= a < n implies #[trigger] old_r.sessions@[a].session_id@ != k by {
            if old_r.sessions@[a].session_id@ == k {
                assert(old_r@.contains_key(k));
            }
        }
        assert(new_r.wf()) by {
            assert forall|a: int, b: int|
                0 <= a < b < new_r.sessions@.len() implies #[trigger] new_r.sessions@[a].session_id@
                != #[trigger] new_r.sessions@[b].session_id@ by {
                if b < n {
                    assert(old_r.sessions@[a].session_id@ != old_r.sessions@[b].session_id@);
                } else {
                    assert(old_r.sessions@[a].session_id@ != k);
                }
            }
        }
        let expected = old_r@.insert(k, (s.sender_connected, s.receiver_connected));
        assert forall|key: Seq<char>| #[trigger] new_r@.contains_key(key) <==> expected.contains_key(
            key,
        ) by {
            if new_r@.contains_key(key) {
                let j = choose|j: int| 0 <= j < new_r.sessions@.len() && #[trigger] new_r.sessions@[j].session_id@ == key;
                if j < n {
                    assert(old_r.sessions@[j].session_id@ == key);
                }
            }
            if expected.contains_key(key) && key != k {
                let j = choose|j: int| 0 <= j < old_r.sessions@.len() && #[trigger] old_r.sessions@[j].session_id@ == key;
                assert(new_r.sessions@[j].session_id@ == key);
            }
            if key == k {
                assert(new_r.sessions@[n].session_id@ == key);
            }
        }
        assert forall|key: Seq<char>| #[trigger] new_r@.contains_key(key) implies new_r@[key]
            == expected[key] by {
            let j = choose|j: int| 0 <= j < new_r.sessions@.len() && #[trigger] new_r.sessions@[j].session_id@ == key;
            new_r.lemma_view_at(j);
            if j < n {
                old_r.lemma_view_at(j);
            }
        }
        assert(new_r@ =~= expected);
    }

    /// Opens session `id` for a sender; no receiver has joined it. A session already
    /// under that id is replaced.
    pub fn register_sender(&mut self, id: String)
        requires
            old(self).wf(),
        ensures
            final(self).wf(),
            final(self)@ == old(self)@.insert(id@, (true, false)),
    {
        let session = RelaySession { session_id: id, sender_connected: true, receiver_connected: false };
        match self.find(&session.session_id) {
            Some(i) => {
                let ghost old_r = *self;
                let ghost s = session;
                self.sessions.set(i, session);
                proof {
                    RelayRegistry::lemma_set_session(&old_r, self, i as int, s);
                }
            },
            None => {
                let ghost old_r = *self;
                let ghost s = session;
                self.sessions.push(session);
                proof {
                    RelayRegistry::lemma_push_session(&old_r, self, s);
                }
            },
        }
    }

    /// Records that a receiver joined session `id`, if it exists; tells whether it did.
    pub fn mark_receiver_connected(&mut self, id: &String) -> (found: bool)
        requires
            old(self).wf(),
        ensures
            final(self).wf(),
            found == old(self)@.contains_key(id@),
            found ==> final(self)@ == old(self)@.insert(id@, (old(self)@[id@].0, true)),
            !found ==> final(self)@ == old(self)@,
    {
        match self.find(id) {
            Some(i) => {
                proof {
                    self.lemma_view_at(i as int);
                }
                let ghost old_r = *self;
                let session = RelaySession {
                    session_id: self.sessions[i].session_id.clone(),
                    sender_connected: self.sessions[i].sender_connected,
                    receiver_connected: true,
                };
                let ghost s = session;
                self.sessions.set(i, session);
                proof {
                    RelayRegistry::lemma_set_session(&old_r, self, i as int, s);
                }
                true
            },
            None => false,
        }
    }

    /// Answers a client's opening message. A sender gets a new session under
    /// `fresh_id`, and a reply naming it; a receiver joins the session it names, which
    /// must exist; any other message type is refused. A refusal changes nothing.
    pub fn handle_init(&mut self, message: &RelayMessage, fresh_id: String) -> (r: Result<
        RelayOutcome,
        TransferError,
    >)
        requires
            old(self).wf(),
        ensures
            final(self).wf(),
            message.message_type@ == "sender_init"@ ==> {
                &&& r matches Ok(RelayOutcome::SenderRegistered { reply }) && reply.message_type@
                    == "session_created"@ && reply.session_id@ == fresh_id@ && reply.data@
                    == Seq::<u8>::empty()
                &&& final(self)@ == old(self)@.insert(fresh_id@, (true, false))
            },
            message.message_type@ == "receiver_init"@ && old(self)@.contains_key(
                message.session_id@,
            ) ==> {
                &&& r matches Ok(RelayOutcome::ReceiverJoined { session_id }) && session_id@
                    == message.session_id@
                &&& final(self)@ == old(self)@.insert(
                    message.session_id@,
                    (old(self)@[message.session_id@].0, true),
                )
            },
            message.message_type@ == "receiver_init"@ && !old(self)@.contains_key(
                message.session_id@,
            ) ==> (r matches Err(TransferError::SessionNotFound(id)) && id@ == message.session_id@),
            message.message_type@ != "sender_init"@ && message.message_type@ != "receiver_init"@
                ==> (r matches Err(TransferError::UnknownMessageType(t)) && t@
                == message.message_type@),
            r is Err ==> final(self)@ == old(self)@,
    {
        proof {
            reveal_strlit("sender_init");
            reveal_strlit("receiver_init");
            assert("sender_init"@.len() != "receiver_init"@.len());
        }
        let sender_init = "sender_init".to_owned();
        let receiver_init = "receiver_init".to_owned();
        if message.message_type == sender_init {
            self.register_sender(fresh_id.clone());
            Ok(RelayOutcome::SenderRegistered { reply: RelayMessage::session_created(fresh_id) })
        } else if message.message_type == receiver_init {
            if self.mark_receiver_connected(&message.session_id) {
                Ok(RelayOutcome::ReceiverJoined { session_id: message.session_id.clone() })
            } else {
                Err(TransferError::SessionNotFound(message.session_id.clone()))
            }
        } else {
            Err(TransferError::UnknownMessageType(message.message_type.clone()))
        }
    }
}

/// A new random session id, as the uuid crate writes a version-4 UUID.
///
/// Trusted: calls `uuid::Uuid::new_v4` and turns the id into text with its `Display`
/// implementation. Nothing is stated of the id: it is random.
#[verifier::external_body]
fn new_session_id() -> String {
    uuid::Uuid::new_v4().to_string()
}

/// The length of the longest session id in `sessions`.
spec fn longest_id(sessions: Seq<RelaySession>) -> nat
    decreases sessions.len(),
{
    if sessions.len() == 0 {
        0
    } else {
        let rest = longest_id(sessions.drop_last());
        let last = sessions.last().session_id@.len();
        if rest < last {
            last
        } else {
            rest
        }
    }
}

proof fn lemma_longest_id(sessions: Seq<RelaySession>)
    ensures
        forall|i: int|
            0 <= i < sessions.len() ==> #[trigger] sessions[i].session_id@.len() <= longest_id(
                sessions,
            ),
    decreases sessions.len(),
{
    if sessions.len() > 0 {
        lemma_longest_id(sessions.drop_last());
        assert forall|i: int| 0 <= i < sessions.len() implies #[trigger] sessions[i].session_id@.len()
            <= longest_id(sessions) by {
            if i < sessions.len() - 1 {
                assert(sessions[i] == sessions.drop_last()[i]);
            }
        }
    }
}

impl RelayRegistry {
    /// Only finitely many sessions are known.
    proof fn lemma_finitely_many(&self)
        ensures
            self@.dom().finite(),
    {
        let ids = self.sessions@.map_values(|s: RelaySession| s.session_id@);
        vstd::seq_lib::seq_to_set_is_finite(ids);
        assert forall|k: Seq<char>| #[trigger] self@.dom().contains(k) implies ids.to_set().contains(k) by {
            let i = choose|i: int| 0 <= i < self.sessions@.len() && #[trigger] self.sessions@[i].session_id@ == k;
            assert(ids[i] == k);
        }
        vstd::set_lib::lemma_len_subset(self@.dom(), ids.to_set());
    }

    /// No known session has an id longer than some bound.
    proof fn lemma_ids_bounded(&self) -> (bound: nat)
        ensures
            forall|k: Seq<char>| #[trigger] self@.contains_key(k) ==> k.len() <= bound,
    {
        lemma_longest_id(self.sessions@);
        let bound = longest_id(self.sessions@);
        assert forall|k: Seq<char>| #[trigger] self@.contains_key(k) implies k.len() <= bound by {
            let i = choose|i: int| 0 <= i < self.sessions@.len() && #[trigger] self.sessions@[i].session_id@ == k;
            assert(self.sessions@[i].session_id@.len() <= bound);
        }
        bound
    }

    /// A random id for a new session that no known session has: should the random id
    /// already be taken, `'-'` is appended until it is not.
    fn fresh_session_id(&self) -> (id: String)
        requires
            self.wf(),
        ensures
            !self@.contains_key(id@),
    {
        let mut id = new_session_id();
        let ghost bound = self.lemma_ids_bounded();
        while self.has_session(&id)
            invariant
                self.wf(),
                forall|k: Seq<char>| #[trigger] self@.contains_key(k) ==> k.len() <= bound,
            decreases bound + 1 - id@.len(),
        {
            assert(id@.len() <= bound);
            push_char(&mut id, '-');
        }
        id
    }

    /// Answers a client's opening message as `handle_init` does. A sender's new session
    /// gets a random id that no known session has, so every session known before is
    /// kept as it was.
    pub fn accept_client(&mut self, message: &RelayMessage) -> (r: Result<
        RelayOutcome,
        TransferError,
    >)
        requires
            old(self).wf(),
        ensures
            final(self).wf(),
            message.message_type@ == "sender_init"@ ==> exists|fresh_id: Seq<char>|
                {
                    &&& !old(self)@.contains_key(fresh_id)
                    &&& #[trigger] final(self)@ == old(self)@.insert(fresh_id, (true, false))
                    &&& r matches Ok(RelayOutcome::SenderRegistered { reply })
                    &&& reply.message_type@ == "session_created"@
                    &&& reply.session_id@ == fresh_id
                    &&& reply.data@ == Seq::<u8>::empty()
                },
            message.message_type@ == "receiver_init"@ && old(self)@.contains_key(
                message.session_id@,
            ) ==> {
                &&& r matches Ok(RelayOutcome::ReceiverJoined { session_id }) && session_id@
                    == message.session_id@
                &&& final(self)@ == old(self)@.insert(
                    message.session_id@,
                    (old(self)@[message.session_id@].0, true),
                )
            },
            message.message_type@ == "receiver_init"@ && !old(self)@.contains_key(
                message.session_id@,
            ) ==> (r matches Err(TransferError::SessionNotFound(id)) && id@ == message.session_id@),
            message.message_type@ != "sender_init"@ && message.message_type@ != "receiver_init"@
                ==> (r matches Err(TransferError::UnknownMessageType(t)) && t@
                == message.message_type@),
            message.message_type@ == "sender_init"@ ==> old(self)@.submap_of(final(self)@),
            message.message_type@ == "sender_init"@ ==> final(self)@.len() == old(self)@.len() + 1,
            r is Err ==> final(self)@ == old(self)@,
    {
        let sender_init = "sender_init".to_owned();
        let fresh_id = if message.message_type == sender_init {
            self.fresh_session_id()
        } else {
            String::new()
        };
        let ghost fresh = fresh_id@;
        let r = self.handle_init(message, fresh_id);
        proof {
            if message.message_type@ == "sender_init"@ {
                assert(self@ == old(self)@.insert(fresh, (true, false)));
                assert(!old(self)@.contains_key(fresh));
                old(self).lemma_finitely_many();
            }
        }
        r
    }
}

/// How long a sender waits on the relay for a receiver, in nanoseconds (5 minutes).
pub const RECEIVER_WAIT_LIMIT_NANOS: u128 = 300_000_000_000;

/// One check of a sender waiting for its receiver, `elapsed_nanos` after it began:
/// past the limit the wait fails; otherwise it may proceed exactly when the receiver
/// has joined.
pub fn sender_wait_step(elapsed_nanos: u128, receiver_connected: bool) -> (r: Result<
    bool,
    TransferError,
>)
    ensures
        elapsed_nanos > RECEIVER_WAIT_LIMIT_NANOS ==> r == Err::<bool, TransferError>(
            TransferError::ReceiverTimeout,
        ),
        elapsed_nanos <= RECEIVER_WAIT_LIMIT_NANOS ==> r == Ok::<bool, TransferError>(
            receiver_connected,
        ),
{
    if elapsed_nanos > RECEIVER_WAIT_LIMIT_NANOS {
        Err(TransferError::ReceiverTimeout)
    } else {
        Ok(receiver_connected)
    }
}

} // verus!
