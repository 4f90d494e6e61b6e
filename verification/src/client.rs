//! The client actor's state machine.
//!
//! The actor takes one message at a time from its bus, in the order of
//! receipt. What it does with a message depends only on its own state; this
//! module holds that decision, and the caller's loop performs the action that
//! comes back.

use crate::ids::{fresh_id, is_random_id, same_id, uuid_bytes};
use uuid::Uuid;
use vstd::prelude::*;

verus! {

/// A message on the client's bus.
pub enum Msg {
    /// Open a connection.
    Start,
    /// Stop the message loop.
    Shutdown,
    /// The connection with this identifier has been established.
    Established(Uuid),
}

/// What the caller's loop has to do after a message was handled.
pub enum Action {
    /// Open a connection under this identifier; it replaces the one held.
    Dial(Uuid),
    /// Say that the client shuts down; the loop ends.
    AnnounceShutdown,
    /// Say that the bus was closed; the loop ends.
    AnnounceBusClosed,
    /// Nothing.
    Nothing,
}

/// The state that the message loop owns.
pub struct ClientState {
    connection: Option<Uuid>,
    connected: bool,
    running: bool,
}

/// A message as the transitions see it: an identifier is its bytes.
pub ghost enum MsgView {
    Start,
    Shutdown,
    Established(Seq<u8>),
}

/// An action as the transitions give it.
pub ghost enum ActionView {
    Dial(Seq<u8>),
    AnnounceShutdown,
    AnnounceBusClosed,
    Nothing,
}

/// The state as the transitions see it.
pub ghost struct StateView {
    /// The identifier of the connection held, if any.
    pub connection: Option<Seq<u8>>,
    /// Whether the connection held has been reported as established.
    pub connected: bool,
    /// Whether the loop still takes messages.
    pub running: bool,
}

impl View for Msg {
    type V = MsgView;

    open spec fn view(&self) -> MsgView {
        match *self {
            Msg::Start => MsgView::Start,
            Msg::Shutdown => MsgView::Shutdown,
            Msg::Established(id) => MsgView::Established(uuid_bytes(id)),
        }
    }
}

impl View for Action {
    type V = ActionView;

    open spec fn view(&self) -> ActionView {
        match *self {
            Action::Dial(id) => ActionView::Dial(uuid_bytes(id)),
            Action::AnnounceShutdown => ActionView::AnnounceShutdown,
            Action::AnnounceBusClosed => ActionView::AnnounceBusClosed,
            Action::Nothing => ActionView::Nothing,
        }
    }
}

impl ActionView {
    /// The identifier to dial under, empty where the action is no dial.
    pub open spec fn dialled(self) -> Seq<u8> {
        match self {
            ActionView::Dial(id) => id,
            _ => Seq::empty(),
        }
    }
}

impl View for ClientState {
    type V = StateView;

    closed spec fn view(&self) -> StateView {
        StateView {
            connection: match self.connection {
                Some(id) => Some(uuid_bytes(id)),
                None => None,
            },
            connected: self.connected,
            running: self.running,
        }
    }
}

/// What the bus delivered: a message, or `None` once no sender remains.
pub open spec fn event_view(event: Option<Msg>) -> Option<MsgView> {
    match event {
        Some(msg) => Some(msg@),
        None => None,
    }
}

/// The state before the first message: no connection, running.
pub open spec fn initial() -> StateView {
    StateView { connection: None, connected: false, running: true }
}

/// One transition: the state after `event` and the action it asks for.
/// `fresh` is the identifier that a new connection gets. A loop that has
/// stopped takes no message.
pub open spec fn step(s: StateView, event: Option<MsgView>, fresh: Seq<u8>) -> (
    StateView,
    ActionView,
) {
    if !s.running {
        (s, ActionView::Nothing)
    } else {
        match event {
            Some(MsgView::Start) => (
                StateView { connection: Some(fresh), ..s },
                ActionView::Dial(fresh),
            ),
            Some(MsgView::Established(id)) => (
                StateView { connected: s.connected || s.connection == Some(id), ..s },
                ActionView::Nothing,
            ),
            Some(MsgView::Shutdown) => (
                StateView { running: false, ..s },
                ActionView::AnnounceShutdown,
            ),
            None => (StateView { running: false, ..s }, ActionView::AnnounceBusClosed),
        }
    }
}

/// The state after the events of `events`, in order, from `s`; the `i`-th
/// event finds `ids[i]` as the fresh identifier.
pub open spec fn run(s: StateView, events: Seq<Option<MsgView>>, ids: Seq<Seq<u8>>) -> StateView
    decreases events.len(),
{
    if events.len() == 0 {
        s
    } else {
        step(run(s, events.drop_last(), ids), events.last(), ids[events.len() - 1]).0
    }
}

impl ClientState {
    /// The state before the first message.
    pub fn new() -> (out: ClientState)
        ensures
            out@ == initial(),
    {
        ClientState { connection: None, connected: false, running: true }
    }

    /// Whether the connection held has been reported as established.
    pub fn is_connected(&self) -> (out: bool)
        ensures
            out == self@.connected,
    {
        self.connected
    }

    /// Whether the loop still takes messages.
    pub fn is_running(&self) -> (out: bool)
        ensures
            out == self@.running,
    {
        self.running
    }

    /// The identifier of the connection held, if any.
    pub fn connection_id(&self) -> (out: Option<Uuid>)
        ensures
            self@.connection == match out {
                Some(id) => Some(uuid_bytes(id)),
                None => None,
            },
    {
        self.connection
    }

    /// Handles `Start` with `id` as the new connection's identifier.
    pub fn start_with(&mut self, id: Uuid) -> (act: Action)
        ensures
            (final(self)@, act@) == step(old(self)@, Some(MsgView::Start), uuid_bytes(id)),
    {
        if !self.running {
            return Action::Nothing;
        }
        self.connection = Some(id);
        Action::Dial(id)
    }

    /// Handles what the bus delivered. A `Start` draws a fresh random
    /// identifier, which the `Dial` that comes back carries.
    pub fn handle(&mut self, event: Option<Msg>) -> (act: Action)
        ensures
            (final(self)@, act@) == step(old(self)@, event_view(event), act@.dialled()),
            act@ is Dial ==> is_random_id(act@.dialled()),
    {
        if !self.running {
            return Action::Nothing;
        }
        match event {
            Some(Msg::Start) => {
                let id = fresh_id();
                self.start_with(id)
            },
            Some(Msg::Established(id)) => {
                let matches = match &self.connection {
                    Some(held) => same_id(held, &id),
                    None => false,
                };
                if matches {
                    self.connected = true;
                }
                Action::Nothing
            },
            Some(Msg::Shutdown) => {
                self.running = false;
                Action::AnnounceShutdown
            },
            None => {
                self.running = false;
                Action::AnnounceBusClosed
            },
        }
    }
}

/// A notice for a connection other than the one held changes nothing.
pub proof fn lemma_stale_established_ignored(s: StateView, id: Seq<u8>, fresh: Seq<u8>)
    requires
        s.connection != Some(id),
    ensures
        step(s, Some(MsgView::Established(id)), fresh) == (s, ActionView::Nothing),
{
}

/// `Start` and then the notice for the connection it opened leave the client
/// connected; `Start` alone does not connect it.
pub proof fn lemma_start_then_established_connects(
    s: StateView,
    id: Seq<u8>,
    fresh: Seq<u8>,
)
    requires
        s.running,
    ensures
        step(s, Some(MsgView::Start), id).0.connected == s.connected,
        step(step(s, Some(MsgView::Start), id).0, Some(MsgView::Established(id)), fresh).0.connected,
{
}

/// Whether a `Start` among the first `n` events opened connection `c`.
pub open spec fn started(events: Seq<Option<MsgView>>, ids: Seq<Seq<u8>>, c: Seq<u8>, n: int) -> bool {
    exists|i: int|
        0 <= i < n && #[trigger] events[i] == Some(MsgView::Start) && ids[i] == c
}

/// Whether, among the first `n` events, a `Start` is followed by the notice
/// for the connection that it opened.
pub open spec fn started_then_established(
    events: Seq<Option<MsgView>>,
    ids: Seq<Seq<u8>>,
    n: int,
) -> bool {
    exists|i: int, j: int|
        0 <= i < j < n && #[trigger] events[i] == Some(MsgView::Start) && #[trigger] events[j]
            == Some(MsgView::Established(ids[i]))
}

/// From the initial state, a connection is held only once a `Start` has
/// opened it, and the client is connected only once a `Start` and, after it,
/// the notice for the connection it opened have both been handled.
pub proof fn lemma_connected_only_after_start_and_established(
    events: Seq<Option<MsgView>>,
    ids: Seq<Seq<u8>>,
)
    ensures
        run(initial(), events, ids).connection matches Some(c) ==> started(
            events,
            ids,
            c,
            events.len() as int,
        ),
        run(initial(), events, ids).connected ==> started_then_established(
            events,
            ids,
            events.len() as int,
        ),
    decreases events.len(),
{
    if events.len() > 0 {
        let n = events.len() as int;
        let prev = events.drop_last();
        lemma_connected_only_after_start_and_established(prev, ids);
        let before = run(initial(), prev, ids);
        let after = run(initial(), events, ids);
        assert(after == step(before, events.last(), ids[n - 1]).0);
        if let Some(c) = after.connection {
            if before.connection == Some(c) {
                let i = choose|i: int|
                    0 <= i < n - 1 && #[trigger] prev[i] == Some(MsgView::Start) && ids[i] == c;
                assert(events[i] == prev[i]);
            } else {
                assert(events[n - 1] == Some(MsgView::Start) && ids[n - 1] == c);
            }
        }
        if after.connected {
            if before.connected {
                let (i, j) = choose|i: int, j: int|
                    0 <= i < j < n - 1 && #[trigger] prev[i] == Some(MsgView::Start)
                        && #[trigger] prev[j] == Some(MsgView::Established(ids[i]));
                assert(events[i] == prev[i] && events[j] == prev[j]);
            } else {
                let c = before.connection->Some_0;
                let i = choose|i: int|
                    0 <= i < n - 1 && #[trigger] prev[i] == Some(MsgView::Start) && ids[i] == c;
                assert(events[i] == prev[i]);
                assert(events[n - 1] == Some(MsgView::Established(ids[i])));
            }
        }
    }
}

/// Once the loop has stopped, no message changes the state.
pub proof fn lemma_stopped_is_terminal(
    s: StateView,
    events: Seq<Option<MsgView>>,
    ids: Seq<Seq<u8>>,
)
    requires
        !s.running,
    ensures
        run(s, events, ids) == s,
    decreases events.len(),
{
    if events.len() > 0 {
        lemma_stopped_is_terminal(s, events.drop_last(), ids);
    }
}

/// After a `Shutdown`, or after the bus was closed, no message that follows
/// is handled: the state stays as the shutdown left it.
pub proof fn lemma_nothing_handled_after_shutdown(
    s: StateView,
    fresh: Seq<u8>,
    events: Seq<Option<MsgView>>,
    ids: Seq<Seq<u8>>,
)
    ensures
        !step(s, Some(MsgView::Shutdown), fresh).0.running,
        run(step(s, Some(MsgView::Shutdown), fresh).0, events, ids) == step(
            s,
            Some(MsgView::Shutdown),
            fresh,
        ).0,
        !step(s, None, fresh).0.running,
        run(step(s, None, fresh).0, events, ids) == step(s, None, fresh).0,
{
    lemma_stopped_is_terminal(step(s, Some(MsgView::Shutdown), fresh).0, events, ids);
    lemma_stopped_is_terminal(step(s, None, fresh).0, events, ids);
}

} // verus!
