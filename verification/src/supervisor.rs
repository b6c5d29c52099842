//! The supervisor: enforces at most one active session, owns the event
//! queue the consumer polls, drives the session state machine from
//! transport events, and schedules the keep-alive frames.
use vstd::prelude::*;

use crate::codec;
use crate::event::{Event, EventQueue};
use crate::heartbeat::{Heartbeat, HEARTBEAT_PERIOD_MS};
use crate::session::{ConnectionState, Session};
use vstd::string::StringExecFns;

verus! {

/// Why a start request was refused without side effects.
#[derive(Clone, Copy, Debug, PartialEq, Eq, Structural)]
pub enum SupervisorError {
    /// A session is already active; stop it and wait for `Disconnected`.
    AlreadyRunning,
}

/// Owns one session slot, the event queue, and the heartbeat schedule.
/// All communication with the consumer goes through the queue, polled
/// one event per tick.
pub struct Supervisor {
    /// The one session instance occupying the slot.
    pub session: Session,
    /// Events owed to the consumer, oldest first.
    pub queue: EventQueue,
    /// The keep-alive schedule bound to the open session.
    pub heartbeat: Heartbeat,
    /// The authentication payload handed over at start.
    pub auth_payload: Vec<u8>,
    /// The endpoint handed over at start.
    pub endpoint: String,
}

impl Supervisor {
    /// The stored authentication payload always fits one frame.
    pub open spec fn wf(&self) -> bool {
        16 + self.auth_payload@.len() <= u32::MAX
    }

    /// Whether a session currently holds the slot.
    pub open spec fn spec_active(&self) -> bool {
        self.session.spec_active()
    }

    /// A supervisor with an idle slot and an empty queue.
    pub fn new() -> (sup: Supervisor)
        ensures
            sup.wf(),
            !sup.spec_active(),
            sup.session.state is Idle,
            !sup.session.running,
            sup.queue@ == Seq::<Event>::empty(),
            !sup.heartbeat.active,
            sup.heartbeat.period_ms == HEARTBEAT_PERIOD_MS,
    {
        Supervisor {
            session: Session::new(),
            queue: EventQueue::new(),
            heartbeat: Heartbeat::new(HEARTBEAT_PERIOD_MS),
            auth_payload: Vec::new(),
            endpoint: String::new(),
        }
    }

    /// Whether the running flag is still set.
    pub fn is_running(&self) -> (r: bool)
        ensures
            r == self.session.running,
    {
        self.session.running
    }

    /// Starts a new session toward `endpoint` with the given
    /// authentication payload. Fails fast with `AlreadyRunning`, and
    /// changes nothing, exactly when a session is already active; no
    /// second transport connection is asked for. Otherwise the fresh
    /// session starts connecting and the call returns at once.
    pub fn start(&mut self, endpoint: &str, auth_payload: Vec<u8>) -> (r: Result<
        (),
        SupervisorError,
    >)
        requires
            old(self).wf(),
            16 + auth_payload@.len() <= u32::MAX,
        ensures
            final(self).wf(),
            old(self).spec_active() ==> r == Err::<(), SupervisorError>(
                SupervisorError::AlreadyRunning,
            ) && *final(self) == *old(self),
            !old(self).spec_active() ==> {
                &&& r is Ok
                &&& final(self).session.state is Connecting
                &&& final(self).session.running
                &&& final(self).queue@ == old(self).queue@
                &&& final(self).auth_payload@ == auth_payload@
                &&& final(self).endpoint@ == endpoint@
                &&& !final(self).heartbeat.active
                &&& final(self).heartbeat.period_ms == old(self).heartbeat.period_ms
            },
    {
        let active = match self.session.state {
            ConnectionState::Idle | ConnectionState::Closed => false,
            _ => true,
        };
        if active {
            return Err(SupervisorError::AlreadyRunning);
        }
        let mut session = Session::new();
        session.begin_connect();
        self.session = session;
        self.auth_payload = auth_payload;
        self.endpoint = String::from_str(endpoint);
        let period = self.heartbeat.period_ms;
        self.heartbeat = Heartbeat::new(period);
        Ok(())
    }

    /// A stop request: clears the running flag and returns at once; the
    /// later `Disconnected` event is the authoritative confirmation.
    pub fn stop(&mut self)
        ensures
            final(self).wf() == old(self).wf(),
            !final(self).session.running,
            final(self).session.state == if old(self).session.state is Open {
                ConnectionState::Closing
            } else {
                old(self).session.state
            },
            final(self).queue@ == old(self).queue@,
            final(self).heartbeat == old(self).heartbeat,
            final(self).auth_payload@ == old(self).auth_payload@,
            final(self).endpoint@ == old(self).endpoint@,
    {
        self.session.stop();
    }

    /// Non-blocking poll: the oldest queued event, if any, in strict
    /// FIFO order; nothing else changes.
    pub fn poll_next_event(&mut self) -> (r: Option<Event>)
        ensures
            final(self).wf() == old(self).wf(),
            final(self).session == old(self).session,
            final(self).heartbeat == old(self).heartbeat,
            final(self).auth_payload@ == old(self).auth_payload@,
            final(self).endpoint@ == old(self).endpoint@,
            match r {
                Option::None => old(self).queue@.len() == 0 && final(self).queue@ == old(self).queue@,
                Option::Some(e) => old(self).queue@.len() > 0 && e == old(self).queue@[0] && final(self).queue@ == old(self).queue@.drop_first(),
            },
    {
        self.queue.poll()
    }

    /// The transport opened: the consumer learns `Connected`, and the
    /// authentication frame carrying the stored payload is handed back
    /// to be sent.
    pub fn on_opened(&mut self) -> (frame: Option<Vec<u8>>)
        requires
            old(self).wf(),
        ensures
            final(self).wf(),
            final(self).heartbeat == old(self).heartbeat,
            final(self).auth_payload@ == old(self).auth_payload@,
            final(self).endpoint@ == old(self).endpoint@,
            old(self).session.state is Connecting ==> {
                &&& final(self).session.state is AwaitingAuthAck
                &&& final(self).session.running == old(self).session.running
                &&& final(self).queue@ == old(self).queue@.push(Event::Connected)
                &&& frame matches Some(f) && f@ == codec::spec_encode(
                    codec::OP_AUTH,
                    old(self).auth_payload@,
                )
            },
            !(old(self).session.state is Connecting) ==> final(self).session == old(self).session
                && final(self).queue@ == old(self).queue@ && frame is None,
    {
        let frame = self.session.on_opened(self.auth_payload.as_slice());
        if frame.is_some() {
            self.queue.push(Event::Connected);
        }
        frame
    }

    /// The transport could not be opened: the session closes and the
    /// consumer learns of the failure.
    pub fn on_open_failed(&mut self)
        ensures
            final(self).wf() == old(self).wf(),
            final(self).heartbeat == old(self).heartbeat,
            final(self).auth_payload@ == old(self).auth_payload@,
            final(self).endpoint@ == old(self).endpoint@,
            old(self).session.state is Connecting ==> {
                &&& final(self).session.state is Closed
                &&& !final(self).session.running
                &&& final(self).queue@.len() == old(self).queue@.len() + 1
                &&& final(self).queue@.subrange(0, old(self).queue@.len() as int) == old(self).queue@
                &&& (final(self).queue@.last() matches Event::Failure { message } && message@
                    == "transport could not be opened"@)
            },
            !(old(self).session.state is Connecting) ==> final(self).session == old(self).session
                && final(self).queue@ == old(self).queue@,
    {
        if let Some(e) = self.session.on_open_failed() {
            self.queue.push(e);
            proof {
                assert(self.queue@.subrange(0, old(self).queue@.len() as int) =~= old(self).queue@);
            }
        }
    }

    /// The authentication frame went out: the session is open and the
    /// heartbeat schedule is armed against the caller's clock.
    pub fn on_auth_sent(&mut self, now_ms: u64)
        ensures
            final(self).wf() == old(self).wf(),
            final(self).queue@ == old(self).queue@,
            final(self).auth_payload@ == old(self).auth_payload@,
            final(self).endpoint@ == old(self).endpoint@,
            old(self).session.state is AwaitingAuthAck ==> {
                &&& final(self).session.state is Open
                &&& final(self).session.running == old(self).session.running
                &&& final(self).heartbeat.active
                &&& final(self).heartbeat.period_ms == old(self).heartbeat.period_ms
                &&& final(self).heartbeat.next_due_ms as int == if now_ms + old(self).heartbeat.period_ms > u64::MAX {
                    u64::MAX as int
                } else {
                    now_ms + old(self).heartbeat.period_ms
                }
            },
            !(old(self).session.state is AwaitingAuthAck) ==> final(self).session == old(self).session && final(self).heartbeat == old(self).heartbeat,
    {
        if self.session.on_auth_sent() {
            self.heartbeat.start(now_ms);
        }
    }

    /// The authentication frame could not be sent: the session closes
    /// and the consumer learns of the failure.
    pub fn on_auth_send_failed(&mut self)
        ensures
            final(self).wf() == old(self).wf(),
            final(self).heartbeat == old(self).heartbeat,
            final(self).auth_payload@ == old(self).auth_payload@,
            final(self).endpoint@ == old(self).endpoint@,
            old(self).session.state is AwaitingAuthAck ==> {
                &&& final(self).session.state is Closed
                &&& !final(self).session.running
                &&& final(self).queue@.len() == old(self).queue@.len() + 1
                &&& final(self).queue@.subrange(0, old(self).queue@.len() as int) == old(self).queue@
                &&& (final(self).queue@.last() matches Event::Failure { message } && message@
                    == "authentication frame could not be sent"@)
            },
            !(old(self).session.state is AwaitingAuthAck) ==> final(self).session == old(self).session && final(self).queue@ == old(self).queue@,
    {
        if let Some(e) = self.session.on_auth_send_failed() {
            self.queue.push(e);
            proof {
                assert(self.queue@.subrange(0, old(self).queue@.len() as int) =~= old(self).queue@);
            }
        }
    }

    /// One batch of bytes arrived: every decoded frame's event is queued
    /// in order; a malformed stream closes the session and queues the
    /// failure instead.
    pub fn on_data(&mut self, data: &[u8])
        ensures
            final(self).wf() == old(self).wf(),
            final(self).heartbeat == old(self).heartbeat,
            final(self).auth_payload@ == old(self).auth_payload@,
            final(self).endpoint@ == old(self).endpoint@,
            !(old(self).session.state is Open && old(self).session.running) ==> final(self).session == old(self).session && final(self).queue@ == old(self).queue@,
            old(self).session.state is Open && old(self).session.running ==> match
                codec::spec_decode(data@, codec::MAX_NESTING as nat) {
                Ok(pairs) => {
                    &&& final(self).session == old(self).session
                    &&& final(self).queue@.len() == old(self).queue@.len() + pairs.len()
                    &&& final(self).queue@.subrange(0, old(self).queue@.len() as int) == old(self).queue@
                    &&& (forall|i: int|
                        0 <= i < pairs.len() ==> crate::session::spec_classified(
                            (#[trigger] pairs[i]).0,
                            pairs[i].1,
                            final(self).queue@[old(self).queue@.len() + i],
                        ))
                },
                Err(_) => {
                    &&& final(self).session.state is Closed
                    &&& !final(self).session.running
                    &&& final(self).queue@.len() == old(self).queue@.len() + 1
                    &&& final(self).queue@.subrange(0, old(self).queue@.len() as int) == old(self).queue@
                    &&& (final(self).queue@.last() matches Event::Failure { message } && message@
                        == "malformed frame stream"@)
                },
            },
    {
        let events = self.session.on_data(data);
        let ghost added = events@;
        self.queue.push_all(events);
        proof {
            assert(self.queue@.subrange(0, old(self).queue@.len() as int) =~= old(self).queue@);
            assert(forall|i: int|
                0 <= i < added.len() ==> self.queue@[old(self).queue@.len() + i]
                    == #[trigger] added[i]);
        }
    }

    /// One tick of the heartbeat task under the caller's clock: hands
    /// back the encoded keep-alive frame exactly when one is due, that
    /// is when the session is still running, the schedule is armed, and
    /// the due time has been reached; the next frame then falls due one
    /// period later. A tick after the running flag was cleared stands
    /// the schedule down without sending.
    pub fn heartbeat_tick(&mut self, now_ms: u64) -> (frame: Option<Vec<u8>>)
        ensures
            final(self).wf() == old(self).wf(),
            final(self).session == old(self).session,
            final(self).queue@ == old(self).queue@,
            final(self).auth_payload@ == old(self).auth_payload@,
            final(self).endpoint@ == old(self).endpoint@,
            final(self).heartbeat.period_ms == old(self).heartbeat.period_ms,
            frame is Some <==> old(self).session.running && old(self).heartbeat.active && now_ms
                >= old(self).heartbeat.next_due_ms,
            frame matches Some(f) ==> f@ == codec::spec_encode(
                codec::OP_HEARTBEAT,
                Seq::<u8>::empty(),
            ),
            !old(self).session.running ==> !final(self).heartbeat.active && final(self).heartbeat.next_due_ms == old(self).heartbeat.next_due_ms,
            old(self).session.running ==> final(self).heartbeat.active == old(self).heartbeat.active && final(self).heartbeat.next_due_ms as int == if frame is Some {
                if old(self).heartbeat.next_due_ms + old(self).heartbeat.period_ms > u64::MAX {
                    u64::MAX as int
                } else {
                    old(self).heartbeat.next_due_ms + old(self).heartbeat.period_ms
                }
            } else {
                old(self).heartbeat.next_due_ms as int
            },
    {
        let running = self.session.running;
        let due = self.heartbeat.on_tick(now_ms, running);
        if due {
            let body: Vec<u8> = Vec::new();
            Some(codec::encode(codec::OP_HEARTBEAT, body.as_slice()))
        } else {
            None
        }
    }

    /// A keep-alive frame could not be sent: the task stands down and
    /// the consumer learns of the failure; the receive loop, not the
    /// task, will observe the transport error and close the session.
    pub fn on_heartbeat_send_failed(&mut self)
        ensures
            final(self).wf() == old(self).wf(),
            final(self).session == old(self).session,
            final(self).auth_payload@ == old(self).auth_payload@,
            final(self).endpoint@ == old(self).endpoint@,
            !final(self).heartbeat.active,
            final(self).heartbeat.period_ms == old(self).heartbeat.period_ms,
            final(self).heartbeat.next_due_ms == old(self).heartbeat.next_due_ms,
            final(self).queue@.len() == old(self).queue@.len() + 1,
            final(self).queue@.subrange(0, old(self).queue@.len() as int) == old(self).queue@,
            final(self).queue@.last() matches Event::Failure { message } && message@
                == "heartbeat frame could not be sent"@,
    {
        self.heartbeat.stand_down();
        self.queue.push(
            Event::Failure { message: String::from_str("heartbeat frame could not be sent") },
        );
        proof {
            assert(self.queue@.subrange(0, old(self).queue@.len() as int) =~= old(self).queue@);
        }
    }

    /// The transport wound down, by the peer or after a stop request:
    /// the session closes in an orderly way and `Disconnected` is
    /// queued as the authoritative confirmation.
    pub fn on_transport_closed(&mut self)
        ensures
            final(self).wf() == old(self).wf(),
            final(self).heartbeat == old(self).heartbeat,
            final(self).auth_payload@ == old(self).auth_payload@,
            final(self).endpoint@ == old(self).endpoint@,
            old(self).session.state is Open || old(self).session.state is Closing ==> {
                &&& final(self).session.state is Closed
                &&& !final(self).session.running
                &&& final(self).queue@ == old(self).queue@.push(Event::Disconnected)
            },
            !(old(self).session.state is Open || old(self).session.state is Closing) ==> final(self).session == old(self).session && final(self).queue@ == old(self).queue@,
    {
        if let Some(e) = self.session.on_transport_closed() {
            self.queue.push(e);
        }
    }

    /// A read or write failed while the session was up: it closes at
    /// once and the consumer learns of the failure.
    pub fn on_transport_error(&mut self)
        ensures
            final(self).wf() == old(self).wf(),
            final(self).heartbeat == old(self).heartbeat,
            final(self).auth_payload@ == old(self).auth_payload@,
            final(self).endpoint@ == old(self).endpoint@,
            old(self).session.state is Open || old(self).session.state is Closing ==> {
                &&& final(self).session.state is Closed
                &&& !final(self).session.running
                &&& final(self).queue@.len() == old(self).queue@.len() + 1
                &&& final(self).queue@.subrange(0, old(self).queue@.len() as int) == old(self).queue@
                &&& (final(self).queue@.last() matches Event::Failure { message } && message@
                    == "transport failed"@)
            },
            !(old(self).session.state is Open || old(self).session.state is Closing) ==> final(self).session == old(self).session && final(self).queue@ == old(self).queue@,
    {
        if let Some(e) = self.session.on_transport_error() {
            self.queue.push(e);
            proof {
                assert(self.queue@.subrange(0, old(self).queue@.len() as int) =~= old(self).queue@);
            }
        }
    }
}

} // verus!
