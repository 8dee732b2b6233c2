use vstd::prelude::*;
use crate::session::{Disconnect, Message};

verus! {

/// How often an active session probes its peer, in time-units.
pub const HEARTBEAT_INTERVAL: u64 = 5;

/// How long the peer may stay silent, measured from the last sign of life,
/// before it is declared dead, in time-units.  The probe cadence is a quarter
/// of this window, so up to four probes may go unanswered before the session
/// gives up.
pub const CLIENT_TIMEOUT: u64 = 20;

/// The lifecycle states of one viewer connection.
#[derive(Clone, Copy, Debug, PartialEq, Eq, Structural)]
pub enum SessionState {
    /// The socket is open but the registry has not answered yet.
    Connecting,
    /// Registered and receiving broadcasts.
    Active,
    /// On the way down: deregistration is owed, then the transport closes.
    Closing,
    /// Gone: timer and read loop are both finished.
    Closed,
}

/// One inbound protocol frame, stated independently of the transport.
pub enum Frame {
    /// A liveness probe from the peer, with its opaque payload.
    Probe(Vec<u8>),
    /// The peer's reply to a probe of ours, with its opaque payload.
    ProbeReply(Vec<u8>),
    /// A text payload.  Viewers are read-mostly: it is accepted and ignored.
    Text(String),
    /// A binary payload.  Not part of the protocol: accepted and ignored.
    Binary(Vec<u8>),
    /// The peer asks to close the session.
    Close,
    /// A fragment frame.  This protocol never fragments, so receiving one is
    /// a protocol violation.
    Continuation,
    /// An empty frame; nothing happens.
    Nop,
}

/// What the transport layer is asked to do after an inbound frame.
pub enum FrameAction {
    /// Answer the probe at once, echoing its payload.
    Reply(Vec<u8>),
    /// Acknowledge the close, then deregister and tear the transport down.
    AckClose,
    /// Deregister and tear the transport down without an acknowledgement.
    Stop,
    /// Nothing to do.
    Ignore,
}

/// What the heartbeat timer is asked to do after a tick.
pub enum TickAction {
    /// The peer is within its window: send the next liveness probe.
    SendProbe,
    /// The peer has been silent past the window: deregister and close.
    Expire,
}

/// One viewer connection's lifecycle: its state, its last-seen clock, and the
/// id the registry assigned.  The socket itself stays with the per-connection
/// task; these transitions only decide, and hand the decisions back as
/// actions.
pub struct TaskSession {
    /// Where the connection stands in its lifecycle.
    pub state: SessionState,
    /// When the peer last showed a sign of life, in time-units.  Set at
    /// creation, refreshed by every inbound probe or probe reply, and never
    /// touched by outbound traffic.
    pub hb: u64,
    /// The id the registry assigned, once registration has succeeded.
    pub id: Option<u128>,
}

/// One liveness-relevant happening, for reasoning about whole histories: a
/// heartbeat tick, or a sign of life from the peer, each at a time.
pub enum LivenessEvent {
    Tick(u64),
    Heard(u64),
}

/// What one liveness event does to a session: a tick past the silence window
/// sends an active session to `Closing`; a timely tick changes nothing; a
/// sign of life refreshes the last-seen clock.
pub open spec fn liveness_step(s: TaskSession, e: LivenessEvent) -> TaskSession {
    match e {
        LivenessEvent::Tick(t) => if s.state is Active && t > s.hb + CLIENT_TIMEOUT {
            TaskSession { state: SessionState::Closing, hb: s.hb, id: s.id }
        } else {
            s
        },
        LivenessEvent::Heard(t) => if s.state is Active {
            TaskSession { state: s.state, hb: t, id: s.id }
        } else {
            s
        },
    }
}

impl TaskSession {
    /// A fresh connection: not yet registered, last seen now.
    pub fn new(now: u64) -> (s: TaskSession)
        ensures
            s.state is Connecting,
            s.hb == now,
            s.id is None,
    {
        TaskSession { state: SessionState::Connecting, hb: now, id: None }
    }

    /// Take the registry's answer to the registration request.  A session id
    /// makes the session active; no answer (the registry was unreachable)
    /// closes it without it ever becoming active.
    pub fn on_registered(&mut self, outcome: Option<u128>)
        requires
            old(self).state is Connecting,
        ensures
            final(self).hb == old(self).hb,
            outcome is Some ==> final(self).state is Active && final(self).id == outcome,
            outcome is None ==> final(self).state is Closed && final(self).id == old(self).id,
    {
        match outcome {
            Some(id) => {
                self.state = SessionState::Active;
                self.id = Some(id);
            },
            None => {
                self.state = SessionState::Closed;
            },
        }
    }

    /// Decide what a heartbeat tick at time `now` means: expiry if the peer
    /// has been silent for longer than the window, otherwise the next probe.
    /// On expiry the session is closing and the caller owes the registry a
    /// deregistration.
    pub fn on_probe_timer(&mut self, now: u64) -> (a: TickAction)
        requires
            old(self).state is Active,
            old(self).hb <= now,
        ensures
            *final(self) == liveness_step(*old(self), LivenessEvent::Tick(now)),
            a is Expire <==> now > old(self).hb + CLIENT_TIMEOUT,
            a is SendProbe ==> *final(self) == *old(self),
    {
        if now - self.hb > CLIENT_TIMEOUT {
            self.state = SessionState::Closing;
            TickAction::Expire
        } else {
            TickAction::SendProbe
        }
    }

    /// Handle one inbound frame at time `now`.  A probe is answered at once
    /// with its own payload and refreshes the last-seen clock; a probe reply
    /// only refreshes it; text and binary payloads are accepted and ignored;
    /// a close indication and a protocol violation send the session to
    /// `Closing`, with and without an acknowledgement.
    pub fn on_frame(&mut self, frame: Frame, now: u64) -> (a: FrameAction)
        requires
            old(self).state is Active,
        ensures
            final(self).id == old(self).id,
            match frame {
                Frame::Probe(p) => *final(self) == liveness_step(
                    *old(self),
                    LivenessEvent::Heard(now),
                ) && (a matches FrameAction::Reply(q) && q@ == p@),
                Frame::ProbeReply(_) => *final(self) == liveness_step(
                    *old(self),
                    LivenessEvent::Heard(now),
                ) && a is Ignore,
                Frame::Text(_) => *final(self) == *old(self) && a is Ignore,
                Frame::Binary(_) => *final(self) == *old(self) && a is Ignore,
                Frame::Close => final(self).state is Closing && final(self).hb == old(self).hb
                    && a is AckClose,
                Frame::Continuation => final(self).state is Closing && final(self).hb == old(
                    self,
                ).hb && a is Stop,
                Frame::Nop => *final(self) == *old(self) && a is Ignore,
            },
    {
        match frame {
            Frame::Probe(p) => {
                self.hb = now;
                FrameAction::Reply(p)
            },
            Frame::ProbeReply(_) => {
                self.hb = now;
                FrameAction::Ignore
            },
            Frame::Text(_) => FrameAction::Ignore,
            Frame::Binary(_) => FrameAction::Ignore,
            Frame::Close => {
                self.state = SessionState::Closing;
                FrameAction::AckClose
            },
            Frame::Continuation => {
                self.state = SessionState::Closing;
                FrameAction::Stop
            },
            Frame::Nop => FrameAction::Ignore,
        }
    }

    /// The transport reported an error: the session is closing and the
    /// caller owes the registry a deregistration.
    pub fn on_transport_error(&mut self)
        requires
            old(self).state is Active,
        ensures
            final(self).state is Closing,
            final(self).hb == old(self).hb,
            final(self).id == old(self).id,
    {
        self.state = SessionState::Closing;
    }

    /// A broadcast delivery arrived.  While active it is relayed to the peer
    /// as a plain text frame holding the event tag; in any other state it is
    /// a no-op.
    pub fn on_delivery(&self, msg: Message) -> (out: Option<String>)
        ensures
            self.state is Active ==> out is Some && out->0@ == msg@,
            !(self.state is Active) ==> out is None,
    {
        if self.state == SessionState::Active {
            Some(msg.0)
        } else {
            None
        }
    }

    /// The session is coming down: it is closed from here on, and if it ever
    /// registered, the returned request deregisters it.  Deregistration is
    /// idempotent, so this is safe after an expiry already asked for one.
    pub fn on_stopping(&mut self) -> (r: Option<Disconnect>)
        ensures
            final(self).state is Closed,
            final(self).hb == old(self).hb,
            final(self).id == old(self).id,
            old(self).id is Some ==> r is Some && r->0.id == old(self).id->0,
            old(self).id is None ==> r is None,
    {
        self.state = SessionState::Closed;
        match self.id {
            Some(id) => Some(Disconnect { id }),
            None => None,
        }
    }
}

// ---------------------------------------------------------------------------
// Laws of the heartbeat.
// ---------------------------------------------------------------------------

/// The session after a whole history of liveness events.
pub open spec fn liveness_run(s: TaskSession, es: Seq<LivenessEvent>) -> TaskSession
    decreases es.len(),
{
    if es.len() == 0 {
        s
    } else {
        liveness_run(liveness_step(s, es[0]), es.drop_first())
    }
}

/// A history in which the peer never exhausts the silence window: every tick
/// finds the then-current last-seen clock within `CLIENT_TIMEOUT`.
pub open spec fn answers_within_window(s: TaskSession, es: Seq<LivenessEvent>) -> bool
    decreases es.len(),
{
    es.len() == 0 || {
        &&& (match es[0] {
            LivenessEvent::Tick(t) => t <= s.hb + CLIENT_TIMEOUT,
            LivenessEvent::Heard(_) => true,
        })
        &&& answers_within_window(liveness_step(s, es[0]), es.drop_first())
    }
}

/// Law of heartbeat liveness: an active session whose peer answers within
/// the window at every tick stays active through any number of ticks and
/// signs of life.
pub proof fn lemma_heartbeat_liveness(s: TaskSession, es: Seq<LivenessEvent>)
    requires
        s.state is Active,
        answers_within_window(s, es),
    ensures
        liveness_run(s, es).state is Active,
    decreases es.len(),
{
    if es.len() > 0 {
        lemma_heartbeat_liveness(liveness_step(s, es[0]), es.drop_first());
    }
}

/// Law of the silent peer: one tick past the silence window sends an active
/// session to `Closing`.  The deregistration that removes it from the
/// registry follows through `on_stopping` and the registry's `deregister`.
pub proof fn lemma_heartbeat_timeout(s: TaskSession, t: u64)
    requires
        s.state is Active,
        t > s.hb + CLIENT_TIMEOUT,
    ensures
        liveness_step(s, LivenessEvent::Tick(t)).state is Closing,
        liveness_step(s, LivenessEvent::Tick(t)).id == s.id,
{
}

} // verus!
