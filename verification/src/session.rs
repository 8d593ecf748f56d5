//! The session manager's decisions: which connections are live, what becomes
//! of each inbound frame, and when a session ends.
//!
//! Connections are accepted, read and written outside this library. Each
//! frame that arrives is handed to `on_inbound` already parsed, or marked as
//! malformed; each attempt to send is reported to `on_send`. A session that
//! ends takes nothing with it: not another session, not an input already
//! appended.
use crate::queue::PendingInput;
use vstd::hash_map::StringHashMap;
use vstd::prelude::*;

verus! {

/// What can go wrong on one connection. Neither reaches another session or
/// the tick loop.
#[derive(Clone, Copy, Debug, PartialEq, Eq, Structural)]
pub enum TransportError {
    /// The connection broke.
    ConnectionReset,
    /// A frame arrived that does not parse as an input event.
    MalformedFrame,
}

/// What arrived on a connection.
pub enum Inbound<E> {
    /// A well-formed input event and the actor it names.
    Input { actor: String, event: E },
    /// The peer closed the connection.
    Closed,
    /// The transport failed, or the frame made no sense.
    Failed(TransportError),
}

/// An input event as it waits for the tick: the event, and the actor identity
/// of the session it came through.
#[derive(Debug)]
pub struct TaggedInput<E> {
    pub actor: String,
    pub event: E,
}

/// Whether the session goes on.
#[derive(Clone, Copy, Debug, PartialEq, Eq, Structural)]
pub enum SessionStep {
    Continue,
    Terminate,
}

/// The mathematical value of one session: its identity, and the actor
/// identity it has claimed, if it has sent an input event yet.
pub ghost struct SessionView {
    pub id: u64,
    pub actor: Option<Seq<char>>,
}

/// The mathematical value of a `SessionManager`: the live sessions in the
/// order they were accepted, the identity the next session gets, and for each
/// actor how many input events it has sent.
pub ghost struct SessionsView {
    pub live: Seq<SessionView>,
    pub next_id: u64,
    pub markers: Map<Seq<char>, u64>,
}

/// Session identities are handed out in rising order and never twice.
pub open spec fn well_formed(v: SessionsView) -> bool {
    &&& forall|i: int, j: int| 0 <= i < j < v.live.len() ==> v.live[i].id < v.live[j].id
    &&& forall|i: int| 0 <= i < v.live.len() ==> v.live[i].id < v.next_id
}

/// Whether `id` is a live session.
pub open spec fn is_live(v: SessionsView, id: u64) -> bool {
    exists|i: int| 0 <= i < v.live.len() && (#[trigger] v.live[i]).id == id
}

/// Where the live session `id` stands among the live sessions.
pub open spec fn position_of(v: SessionsView, id: u64) -> int {
    choose|i: int| 0 <= i < v.live.len() && (#[trigger] v.live[i]).id == id
}

/// The actor identity that the live session `id` has claimed, if any.
pub open spec fn actor_of(v: SessionsView, id: u64) -> Option<Seq<char>> {
    if is_live(v, id) {
        v.live[position_of(v, id)].actor
    } else {
        None
    }
}

/// The sessions after one more was accepted, if an identity is left for it.
pub open spec fn spec_opened(v: SessionsView) -> SessionsView {
    if v.next_id < u64::MAX {
        SessionsView {
            live: v.live.push(SessionView { id: v.next_id, actor: None }),
            next_id: (v.next_id + 1) as u64,
            ..v
        }
    } else {
        v
    }
}

/// The sessions without `id`.
pub open spec fn spec_closed(v: SessionsView, id: u64) -> SessionsView {
    if is_live(v, id) {
        SessionsView { live: v.live.remove(position_of(v, id)), ..v }
    } else {
        v
    }
}

/// An actor's marker after one more input event from it.
pub open spec fn spec_bumped(markers: Map<Seq<char>, u64>, actor: Seq<char>) -> u64 {
    if !markers.dom().contains(actor) {
        1
    } else if markers[actor] < u64::MAX {
        (markers[actor] + 1) as u64
    } else {
        u64::MAX
    }
}

/// The sessions after the live session `id` sent an input event as `actor`:
/// the session has claimed that identity, and the actor's marker has moved.
pub open spec fn spec_claimed(v: SessionsView, id: u64, actor: Seq<char>) -> SessionsView {
    SessionsView {
        live: v.live.update(position_of(v, id), SessionView { id, actor: Some(actor) }),
        markers: v.markers.insert(actor, spec_bumped(v.markers, actor)),
        ..v
    }
}

/// Whether the frame ends its session: a closed or broken connection does, a
/// malformed frame does not.
pub open spec fn ends_session<E>(frame: Inbound<E>) -> bool {
    match frame {
        Inbound::Input { .. } => false,
        Inbound::Closed => true,
        Inbound::Failed(error) => error == TransportError::ConnectionReset,
    }
}

/// The sessions after a frame arrived on `session`.
pub open spec fn spec_after_inbound<E>(
    v: SessionsView,
    session: u64,
    frame: Inbound<E>,
) -> SessionsView {
    if !is_live(v, session) {
        v
    } else {
        match frame {
            Inbound::Input { actor, event } => spec_claimed(v, session, actor@),
            Inbound::Closed => spec_closed(v, session),
            Inbound::Failed(TransportError::ConnectionReset) => spec_closed(v, session),
            Inbound::Failed(TransportError::MalformedFrame) => v,
        }
    }
}

/// The pending inputs after a frame arrived on `session`: one longer for an
/// input event on a live session, untouched by anything else.
pub open spec fn spec_queue_after_inbound<E>(
    v: SessionsView,
    waiting: Seq<TaggedInput<E>>,
    session: u64,
    frame: Inbound<E>,
) -> Seq<TaggedInput<E>> {
    match frame {
        Inbound::Input { actor, event } => if is_live(v, session) {
            waiting.push(TaggedInput { actor, event })
        } else {
            waiting
        },
        _ => waiting,
    }
}

/// Whether the session goes on after the frame.
pub open spec fn spec_step<E>(v: SessionsView, session: u64, frame: Inbound<E>) -> SessionStep {
    if is_live(v, session) && !ends_session(frame) {
        SessionStep::Continue
    } else {
        SessionStep::Terminate
    }
}

/// The sessions after an attempt to send to `session`.
pub open spec fn spec_after_send(v: SessionsView, session: u64, delivered: bool) -> SessionsView {
    if delivered {
        v
    } else {
        spec_closed(v, session)
    }
}

/// Among well-formed sessions an identity stands at one position only.
pub proof fn lemma_position_unique(v: SessionsView, i: int)
    requires
        well_formed(v),
        0 <= i < v.live.len(),
    ensures
        is_live(v, v.live[i].id),
        position_of(v, v.live[i].id) == i,
{
    let id = v.live[i].id;
    assert(is_live(v, id));
    let k = position_of(v, id);
    assert(0 <= k < v.live.len() && v.live[k].id == id);
    if k < i {
        assert(v.live[k].id < v.live[i].id);
    }
    if i < k {
        assert(v.live[i].id < v.live[k].id);
    }
}

/// Ending a session ends that session only: it is no longer live, every
/// other session is live exactly if it was and keeps the actor identity it
/// claimed, and the markers stay.
pub proof fn lemma_close_is_local(v: SessionsView, id: u64, other: u64)
    requires
        well_formed(v),
    ensures
        well_formed(spec_closed(v, id)),
        !is_live(spec_closed(v, id), id),
        other != id ==> is_live(spec_closed(v, id), other) == is_live(v, other),
        other != id ==> actor_of(spec_closed(v, id), other) == actor_of(v, other),
        spec_closed(v, id).markers == v.markers,
{
    let after = spec_closed(v, id);
    if is_live(v, id) {
        let k = position_of(v, id);
        assert(0 <= k < v.live.len() && v.live[k].id == id);
        assert forall|i: int| 0 <= i < after.live.len() implies #[trigger] after.live[i] == (if i
            < k {
            v.live[i]
        } else {
            v.live[i + 1]
        }) by {}
        assert(well_formed(after)) by {
            assert forall|i: int, j: int| 0 <= i < j < after.live.len() implies after.live[i].id
                < after.live[j].id by {
                let a = if i < k {
                    i
                } else {
                    i + 1
                };
                let b = if j < k {
                    j
                } else {
                    j + 1
                };
                assert(v.live[a].id < v.live[b].id);
            }
        }
        if is_live(after, id) {
            let i = position_of(after, id);
            let a = if i < k {
                i
            } else {
                i + 1
            };
            assert(v.live[a].id == id);
            lemma_position_unique(v, a);
        }
        if other != id {
            if is_live(v, other) {
                let i = position_of(v, other);
                assert(0 <= i < v.live.len() && v.live[i].id == other);
                let b = if i < k {
                    i
                } else {
                    i - 1
                };
                assert(after.live[b] == v.live[i]);
                assert(is_live(after, other));
                lemma_position_unique(after, b);
            }
            if is_live(after, other) {
                let i = position_of(after, other);
                let a = if i < k {
                    i
                } else {
                    i + 1
                };
                assert(v.live[a] == after.live[i]);
                assert(is_live(v, other));
                lemma_position_unique(v, a);
            }
        }
    }
}

/// A malformed frame changes nothing: the session goes on, the sessions and
/// the pending inputs are as before.
pub proof fn lemma_malformed_is_dropped<E>(
    v: SessionsView,
    waiting: Seq<TaggedInput<E>>,
    session: u64,
)
    requires
        is_live(v, session),
    ensures
        spec_step::<E>(v, session, Inbound::Failed(TransportError::MalformedFrame))
            == SessionStep::Continue,
        spec_after_inbound::<E>(v, session, Inbound::Failed(TransportError::MalformedFrame)) == v,
        spec_queue_after_inbound::<E>(
            v,
            waiting,
            session,
            Inbound::Failed(TransportError::MalformedFrame),
        ) == waiting,
{
}

/// An input that was appended stays appended when its session ends: a closed
/// or broken connection leaves the pending inputs as they are.
pub proof fn lemma_disconnect_keeps_inputs<E>(
    v: SessionsView,
    waiting: Seq<TaggedInput<E>>,
    session: u64,
    actor: String,
    event: E,
    last: Inbound<E>,
)
    requires
        is_live(v, session),
        ends_session(last),
    ensures
        spec_queue_after_inbound(
            spec_after_inbound(v, session, Inbound::Input { actor, event }),
            spec_queue_after_inbound(v, waiting, session, Inbound::Input { actor, event }),
            session,
            last,
        ) == waiting.push(TaggedInput { actor, event }),
{
}

/// One live session.
struct Session {
    id: u64,
    actor: Option<String>,
}

impl View for Session {
    type V = SessionView;

    closed spec fn view(&self) -> SessionView {
        SessionView {
            id: self.id,
            actor: match self.actor {
                Some(a) => Some(a@),
                None => None,
            },
        }
    }
}

/// The live sessions and the identity the next one gets.
struct LiveSessions {
    sessions: Vec<Session>,
    next_id: u64,
}

impl LiveSessions {
    spec fn views(self) -> Seq<SessionView> {
        Seq::new(self.sessions@.len(), |i: int| self.sessions@[i]@)
    }

    #[verifier::type_invariant]
    spec fn rising(self) -> bool {
        &&& forall|i: int, j: int|
            0 <= i < j < self.sessions@.len() ==> self.sessions@[i].id < self.sessions@[j].id
        &&& forall|i: int| 0 <= i < self.sessions@.len() ==> self.sessions@[i].id < self.next_id
    }
}

/// The session manager's state.
pub struct SessionManager {
    live: LiveSessions,
    markers: StringHashMap<u64>,
}

impl View for SessionManager {
    type V = SessionsView;

    closed spec fn view(&self) -> SessionsView {
        SessionsView {
            live: self.live.views(),
            next_id: self.live.next_id,
            markers: self.markers@,
        }
    }
}

impl SessionManager {
    /// A manager with no session and no marker.
    pub fn new() -> (r: SessionManager)
        ensures
            r@ == (SessionsView { live: Seq::empty(), next_id: 0, markers: Map::empty() }),
            well_formed(r@),
    {
        let r = SessionManager {
            live: LiveSessions { sessions: Vec::new(), next_id: 0 },
            markers: StringHashMap::new(),
        };
        assert(r@.live =~= Seq::<SessionView>::empty());
        r
    }

    /// Where the live session `id` stands.
    fn position(&self, id: u64) -> (r: Option<usize>)
        ensures
            well_formed(self@),
            r is Some <==> is_live(self@, id),
            r is Some ==> r->0 < self.live.sessions@.len() && self.live.sessions@[r->0 as int].id
                == id && r->0 == position_of(self@, id),
    {
        proof {
            use_type_invariant(&self.live);
        }
        let n = self.live.sessions.len();
        let mut i: usize = 0;
        while i < n
            invariant
                n == self.live.sessions@.len(),
                self@.live.len() == n,
                well_formed(self@),
                i <= n,
                forall|k: int| 0 <= k < i ==> self.live.sessions@[k].id != id,
            decreases n - i,
        {
            if self.live.sessions[i].id == id {
                proof {
                    assert(self@.live[i as int].id == id);
                    lemma_position_unique(self@, i as int);
                }
                return Some(i);
            }
            i += 1;
        }
        proof {
            if is_live(self@, id) {
                let k = position_of(self@, id);
                assert(self@.live[k].id == self.live.sessions@[k].id);
            }
        }
        None
    }

    /// Accepts a connection and gives its session an identity that no session
    /// had before. Gives none once the identities are used up.
    pub fn open_session(&mut self) -> (r: Option<u64>)
        ensures
            r is Some <==> old(self)@.next_id < u64::MAX,
            r is Some ==> r->0 == old(self)@.next_id && !is_live(old(self)@, r->0),
            final(self)@ == spec_opened(old(self)@),
            well_formed(final(self)@),
    {
        proof {
            use_type_invariant(&self.live);
        }
        let ghost before = self@;
        let id = self.live.next_id;
        if id == u64::MAX {
            return None;
        }
        proof {
            if is_live(before, id) {
                let k = position_of(before, id);
                assert(before.live[k].id == self.live.sessions@[k].id);
            }
        }
        self.live.next_id = id + 1;
        let mut sessions: Vec<Session> = Vec::new();
        core::mem::swap(&mut self.live.sessions, &mut sessions);
        sessions.push(Session { id, actor: None });
        core::mem::swap(&mut self.live.sessions, &mut sessions);
        assert(self@.live =~= before.live.push(SessionView { id, actor: None }));
        Some(id)
    }

    /// Ends `session` if it is live.
    fn close(&mut self, session: u64)
        ensures
            final(self)@ == spec_closed(old(self)@, session),
            well_formed(final(self)@),
    {
        proof {
            use_type_invariant(&self.live);
        }
        let ghost before = self@;
        match self.position(session) {
            Some(i) => {
                let mut sessions: Vec<Session> = Vec::new();
                core::mem::swap(&mut self.live.sessions, &mut sessions);
                let _ = sessions.remove(i);
                core::mem::swap(&mut self.live.sessions, &mut sessions);
                assert(self@.live =~= before.live.remove(i as int));
            },
            None => {},
        }
    }

    /// Takes what arrived on `session`. An input event on a live session goes
    /// to the end of `queue`, tagged with its actor, whom the session claims
    /// from then on and for whom it counts; a malformed frame is dropped and
    /// the session goes on; a closed or broken connection ends the session.
    /// Anything from a session that is not live is dropped.
    pub fn on_inbound<E>(
        &mut self,
        session: u64,
        frame: Inbound<E>,
        queue: &mut PendingInput<TaggedInput<E>>,
    ) -> (r: SessionStep)
        ensures
            r == spec_step(old(self)@, session, frame),
            final(self)@ == spec_after_inbound(old(self)@, session, frame),
            final(queue)@ == spec_queue_after_inbound(old(self)@, old(queue)@, session, frame),
            well_formed(final(self)@),
    {
        proof {
            use_type_invariant(&self.live);
        }
        let ghost before = self@;
        let at = match self.position(session) {
            Some(i) => i,
            None => {
                return SessionStep::Terminate;
            },
        };
        match frame {
            Inbound::Input { actor, event } => {
                let mark: u64 = match self.markers.get(actor.as_str()) {
                    Some(seen) => if *seen < u64::MAX {
                        *seen + 1
                    } else {
                        u64::MAX
                    },
                    None => 1,
                };
                self.markers.insert(actor.clone(), mark);
                let mut sessions: Vec<Session> = Vec::new();
                core::mem::swap(&mut self.live.sessions, &mut sessions);
                sessions[at] = Session { id: session, actor: Some(actor.clone()) };
                core::mem::swap(&mut self.live.sessions, &mut sessions);
                assert(self@.live =~= before.live.update(
                    at as int,
                    SessionView { id: session, actor: Some(actor@) },
                ));
                queue.append(TaggedInput { actor, event });
                SessionStep::Continue
            },
            Inbound::Closed => {
                self.close(session);
                SessionStep::Terminate
            },
            Inbound::Failed(TransportError::ConnectionReset) => {
                self.close(session);
                SessionStep::Terminate
            },
            Inbound::Failed(TransportError::MalformedFrame) => SessionStep::Continue,
        }
    }

    /// Takes the outcome of sending a snapshot to `session`. A failed send
    /// ends that session.
    pub fn on_send(&mut self, session: u64, delivered: bool) -> (r: SessionStep)
        ensures
            r == (if delivered && is_live(old(self)@, session) {
                SessionStep::Continue
            } else {
                SessionStep::Terminate
            }),
            final(self)@ == spec_after_send(old(self)@, session, delivered),
            well_formed(final(self)@),
    {
        proof {
            use_type_invariant(&self.live);
        }
        if !delivered {
            self.close(session);
            SessionStep::Terminate
        } else if self.position(session).is_some() {
            SessionStep::Continue
        } else {
            SessionStep::Terminate
        }
    }

    /// Whether `session` is live.
    pub fn is_open(&self, session: u64) -> (r: bool)
        ensures
            r == is_live(self@, session),
    {
        self.position(session).is_some()
    }

    /// The actor identity that `session` has claimed, if it is live and has
    /// sent an input event.
    pub fn actor_of(&self, session: u64) -> (r: Option<String>)
        ensures
            r is Some <==> actor_of(self@, session) is Some,
            r is Some ==> Some(r->0@) == actor_of(self@, session),
    {
        match self.position(session) {
            Some(i) => match &self.live.sessions[i].actor {
                Some(a) => Some(a.clone()),
                None => None,
            },
            None => None,
        }
    }

    /// The sessions to send the next snapshot to: every live session, once,
    /// in the order they were accepted.
    pub fn subscribers(&self) -> (r: Vec<u64>)
        ensures
            r@.len() == self@.live.len(),
            forall|i: int| 0 <= i < r@.len() ==> r@[i] == (#[trigger] self@.live[i]).id,
            well_formed(self@),
    {
        proof {
            use_type_invariant(&self.live);
        }
        let mut out: Vec<u64> = Vec::new();
        let n = self.live.sessions.len();
        let mut i: usize = 0;
        while i < n
            invariant
                n == self.live.sessions@.len(),
                i <= n,
                out@.len() == i,
                forall|k: int| 0 <= k < i ==> out@[k] == self.live.sessions@[k].id,
            decreases n - i,
        {
            out.push(self.live.sessions[i].id);
            i += 1;
        }
        out
    }

    /// How many input events `actor` has sent, if any.
    pub fn last_seen(&self, actor: &str) -> (r: Option<u64>)
        ensures
            r is Some <==> self@.markers.dom().contains(actor@),
            r is Some ==> r->0 == self@.markers[actor@],
    {
        match self.markers.get(actor) {
            Some(seen) => Some(*seen),
            None => None,
        }
    }
}

} // verus!
