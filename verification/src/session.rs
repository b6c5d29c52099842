//! Lifecycle of one connection: the state machine that carries a session
//! from idle through the authentication handshake to the open receive
//! loop, and the classification of decoded frames into events.
use vstd::prelude::*;

use crate::codec;
use crate::codec::OperationCode;
use crate::event::Event;
use vstd::string::StringExecFns;

verus! {

/// Where a session stands in its life. `Closed` is terminal for one
/// session instance; a new start creates a new instance.
#[derive(Clone, Copy, Debug, PartialEq, Eq, Structural)]
pub enum ConnectionState {
    Idle,
    Connecting,
    AwaitingAuthAck,
    Open,
    Closing,
    Closed,
}

/// Relies on String::from_utf8: it succeeds exactly on valid UTF-8 and
/// returns the decoded text, as vstd's UTF-8 model states it.
#[verifier::external_body]
fn bytes_to_utf8(bytes: Vec<u8>) -> (r: Option<String>)
    ensures
        match r {
            Option::Some(s) => vstd::utf8::valid_utf8(bytes@) && s@ == vstd::utf8::decode_utf8(
                bytes@,
            ),
            Option::None => !vstd::utf8::valid_utf8(bytes@),
        },
{
    String::from_utf8(bytes).ok()
}

/// The command tag of the structured record written in `text`: the
/// record's string field named "cmd", the stand-in tag "UNKNOWN" where
/// the record parses but carries no such field, and `None` where `text`
/// is no well-formed record at all.
pub uninterp spec fn json_command(text: Seq<char>) -> Option<Seq<char>>;

/// Relies on serde_json::from_str together with Value::get and
/// Value::as_str: the command tag carried by a JSON record is a function
/// of the text alone, and text that is not JSON yields a parse error.
#[verifier::external_body]
fn extract_command(text: &str) -> (r: Option<String>)
    ensures
        match r {
            Option::Some(c) => json_command(text@) == Some(c@),
            Option::None => json_command(text@) is None,
        },
{
    match serde_json::from_str::<serde_json::Value>(text) {
        Ok(value) => Some(
            value.get("cmd").and_then(|v| v.as_str()).unwrap_or("UNKNOWN").to_string(),
        ),
        Err(_) => None,
    }
}

/// The event owed for one decoded `(operation, body)` pair: replies are
/// acknowledged with a trace, a message body becomes an inbound event
/// carrying its command tag and text, a message body that is not UTF-8
/// or not a record is traced and dropped, and every other operation is
/// traced as unrecognized.
pub open spec fn spec_classified(op: u32, body: Seq<u8>, e: Event) -> bool {
    if op == codec::OP_AUTH_REPLY {
        e matches Event::Trace { message } && message@ == "authentication acknowledged"@
    } else if op == codec::OP_HEARTBEAT_REPLY {
        e matches Event::Trace { message } && message@ == "heartbeat acknowledged"@
    } else if op == codec::OP_MESSAGE {
        if !vstd::utf8::valid_utf8(body) {
            e matches Event::Trace { message } && message@ == "message body is not valid utf-8"@
        } else {
            let text = vstd::utf8::decode_utf8(body);
            match json_command(text) {
                Option::None => e matches Event::Trace { message } && message@
                    == "message body is not a structured record"@,
                Option::Some(cmd) => e matches Event::Inbound { command, payload } && command@
                    == cmd && payload@ == text,
            }
        }
    } else {
        e matches Event::Trace { message } && message@ == "unrecognized operation"@
    }
}

/// Classifies one decoded frame into the event it owes the consumer.
pub fn classify_one(operation: &OperationCode, body: Vec<u8>) -> (e: Event)
    requires
        *operation == codec::spec_op(operation.spec_code()),
    ensures
        spec_classified(operation.spec_code(), body@, e),
{
    match operation {
        OperationCode::AuthReply => Event::Trace {
            message: String::from_str("authentication acknowledged"),
        },
        OperationCode::HeartbeatReply => Event::Trace {
            message: String::from_str("heartbeat acknowledged"),
        },
        OperationCode::Message => {
            match bytes_to_utf8(body) {
                Option::None => Event::Trace {
                    message: String::from_str("message body is not valid utf-8"),
                },
                Option::Some(text) => {
                    match extract_command(text.as_str()) {
                        Option::None => Event::Trace {
                            message: String::from_str("message body is not a structured record"),
                        },
                        Option::Some(command) => Event::Inbound { command, payload: text },
                    }
                },
            }
        },
        _ => Event::Trace { message: String::from_str("unrecognized operation") },
    }
}

/// Classifies a whole batch of decoded frames, one event per frame, in
/// the order the frames were decoded.
pub fn classify_frames(items: Vec<(OperationCode, Vec<u8>)>) -> (events: Vec<Event>)
    requires
        forall|i: int|
            0 <= i < items@.len() ==> (#[trigger] items@[i]).0 == codec::spec_op(
                items@[i].0.spec_code(),
            ),
    ensures
        events@.len() == items@.len(),
        forall|i: int|
            0 <= i < items@.len() ==> spec_classified(
                (#[trigger] items@[i]).0.spec_code(),
                items@[i].1@,
                events@[i],
            ),
{
    let ghost all = items@;
    let mut rest = items;
    let mut events: Vec<Event> = Vec::new();
    while rest.len() > 0
        invariant
            events@.len() + rest@.len() == all.len(),
            rest@ == all.subrange(events@.len() as int, all.len() as int),
            forall|i: int|
                0 <= i < all.len() ==> (#[trigger] all[i]).0 == codec::spec_op(
                    all[i].0.spec_code(),
                ),
            forall|i: int|
                0 <= i < events@.len() ==> spec_classified(
                    (#[trigger] all[i]).0.spec_code(),
                    all[i].1@,
                    events@[i],
                ),
        decreases rest@.len(),
    {
        let (operation, body) = rest.remove(0);
        proof {
            assert(all[events@.len() as int] == (operation, body));
        }
        let e = classify_one(&operation, body);
        events.push(e);
        proof {
            assert(rest@ =~= all.subrange(events@.len() as int, all.len() as int));
        }
    }
    events
}

/// One session instance: its lifecycle state and its running flag. The
/// flag is the only state shared with the stop request; the receive loop
/// and the heartbeat task both observe it.
pub struct Session {
    /// Where the session stands in its life.
    pub state: ConnectionState,
    /// Cleared by a stop request or by a terminal transport event.
    pub running: bool,
}

impl Session {
    /// Whether this session still holds the one connection slot: it does
    /// from the moment it starts connecting until it reaches `Closed`.
    pub open spec fn spec_active(&self) -> bool {
        !(self.state is Idle || self.state is Closed)
    }

    /// A fresh idle session.
    pub fn new() -> (s: Session)
        ensures
            s.state is Idle,
            !s.running,
            !s.spec_active(),
    {
        Session { state: ConnectionState::Idle, running: false }
    }

    /// Starts connecting. Only an idle instance can; anything else is
    /// left untouched and refused.
    pub fn begin_connect(&mut self) -> (ok: bool)
        ensures
            ok == (old(self).state is Idle),
            ok ==> final(self).state is Connecting && final(self).running,
            !ok ==> *final(self) == *old(self),
    {
        if let ConnectionState::Idle = self.state {
            self.state = ConnectionState::Connecting;
            self.running = true;
            true
        } else {
            false
        }
    }

    /// The transport opened: move to awaiting the authentication
    /// acknowledgment and hand back the authentication frame to send,
    /// carrying the caller supplied payload.
    pub fn on_opened(&mut self, auth_payload: &[u8]) -> (frame: Option<Vec<u8>>)
        requires
            16 + auth_payload@.len() <= u32::MAX,
        ensures
            old(self).state is Connecting ==> {
                &&& final(self).state is AwaitingAuthAck
                &&& final(self).running == old(self).running
                &&& frame matches Some(f) && f@ == codec::spec_encode(
                    codec::OP_AUTH,
                    auth_payload@,
                )
            },
            !(old(self).state is Connecting) ==> *final(self) == *old(self) && frame is None,
    {
        if let ConnectionState::Connecting = self.state {
            self.state = ConnectionState::AwaitingAuthAck;
            Some(codec::encode(codec::OP_AUTH, auth_payload))
        } else {
            None
        }
    }

    /// The transport could not be opened: the session is closed and the
    /// failure is surfaced; it is never retried automatically.
    pub fn on_open_failed(&mut self) -> (e: Option<Event>)
        ensures
            old(self).state is Connecting ==> {
                &&& final(self).state is Closed
                &&& !final(self).running
                &&& e matches Some(ev) && (ev matches Event::Failure { message } && message@
                    == "transport could not be opened"@)
            },
            !(old(self).state is Connecting) ==> *final(self) == *old(self) && e is None,
    {
        if let ConnectionState::Connecting = self.state {
            self.state = ConnectionState::Closed;
            self.running = false;
            Some(Event::Failure { message: String::from_str("transport could not be opened") })
        } else {
            None
        }
    }

    /// The authentication frame went out: the session is optimistically
    /// open; the heartbeat task and the receive loop start now.
    pub fn on_auth_sent(&mut self) -> (opened: bool)
        ensures
            opened == (old(self).state is AwaitingAuthAck),
            opened ==> final(self).state is Open && final(self).running == old(self).running,
            !opened ==> *final(self) == *old(self),
    {
        if let ConnectionState::AwaitingAuthAck = self.state {
            self.state = ConnectionState::Open;
            true
        } else {
            false
        }
    }

    /// The authentication frame could not be sent: the session is closed
    /// and the failure is surfaced.
    pub fn on_auth_send_failed(&mut self) -> (e: Option<Event>)
        ensures
            old(self).state is AwaitingAuthAck ==> {
                &&& final(self).state is Closed
                &&& !final(self).running
                &&& e matches Some(ev) && (ev matches Event::Failure { message } && message@
                    == "authentication frame could not be sent"@)
            },
            !(old(self).state is AwaitingAuthAck) ==> *final(self) == *old(self) && e is None,
    {
        if let ConnectionState::AwaitingAuthAck = self.state {
            self.state = ConnectionState::Closed;
            self.running = false;
            Some(
                Event::Failure {
                    message: String::from_str("authentication frame could not be sent"),
                },
            )
        } else {
            None
        }
    }

    /// One batch of bytes arrived while open: decode it and classify
    /// every frame into its event, in order. A malformed frame stream is
    /// a transport-grade failure: the whole batch is discarded and the
    /// session closes. Outside an open, running session the bytes are
    /// dropped.
    pub fn on_data(&mut self, data: &[u8]) -> (events: Vec<Event>)
        ensures
            !(old(self).state is Open && old(self).running) ==> *final(self) == *old(self)
                && events@.len() == 0,
            old(self).state is Open && old(self).running ==> match codec::spec_decode(
                data@,
                codec::MAX_NESTING as nat,
            ) {
                Ok(pairs) => {
                    &&& *final(self) == *old(self)
                    &&& events@.len() == pairs.len()
                    &&& (forall|i: int|
                        0 <= i < pairs.len() ==> spec_classified(
                            (#[trigger] pairs[i]).0,
                            pairs[i].1,
                            events@[i],
                        ))
                },
                Err(_) => {
                    &&& final(self).state is Closed
                    &&& !final(self).running
                    &&& events@.len() == 1
                    &&& (events@[0] matches Event::Failure { message } && message@
                        == "malformed frame stream"@)
                },
            },
    {
        let is_open = if let ConnectionState::Open = self.state {
            true
        } else {
            false
        };
        if !is_open || !self.running {
            return Vec::new();
        }
        match codec::decode(data) {
            Ok(items) => {
                let ghost pairs = codec::spec_decode(data@, codec::MAX_NESTING as nat)->Ok_0;
                proof {
                    assert forall|i: int|
                        0 <= i < items@.len() implies (#[trigger] items@[i]).0 == codec::spec_op(
                        items@[i].0.spec_code(),
                    ) by {
                        assert(items@[i].0 == codec::spec_op(pairs[i].0));
                    }
                }
                let events = classify_frames(items);
                proof {
                    assert forall|i: int| 0 <= i < pairs.len() implies spec_classified(
                        (#[trigger] pairs[i]).0,
                        pairs[i].1,
                        events@[i],
                    ) by {
                        assert(items@[i].0 == codec::spec_op(pairs[i].0));
                        assert(items@[i].1@ == pairs[i].1);
                        assert(spec_classified(
                            items@[i].0.spec_code(),
                            items@[i].1@,
                            events@[i],
                        ));
                    }
                }
                events
            },
            Err(_) => {
                self.state = ConnectionState::Closed;
                self.running = false;
                let mut events: Vec<Event> = Vec::new();
                events.push(
                    Event::Failure { message: String::from_str("malformed frame stream") },
                );
                events
            },
        }
    }

    /// The peer closed the transport, or the receive loop wound down
    /// after a stop request: the session closes in an orderly way and
    /// the consumer is told it is over.
    pub fn on_transport_closed(&mut self) -> (e: Option<Event>)
        ensures
            old(self).state is Open || old(self).state is Closing ==> {
                &&& final(self).state is Closed
                &&& !final(self).running
                &&& e matches Some(ev) && ev == Event::Disconnected
            },
            !(old(self).state is Open || old(self).state is Closing) ==> *final(self) == *old(self) && e is None,
    {
        match self.state {
            ConnectionState::Open | ConnectionState::Closing => {
                self.state = ConnectionState::Closed;
                self.running = false;
                Some(Event::Disconnected)
            },
            _ => None,
        }
    }

    /// A read or write failed while the session was up: close at once,
    /// skipping the orderly `Closing` step, and surface the failure.
    pub fn on_transport_error(&mut self) -> (e: Option<Event>)
        ensures
            old(self).state is Open || old(self).state is Closing ==> {
                &&& final(self).state is Closed
                &&& !final(self).running
                &&& e matches Some(ev) && (ev matches Event::Failure { message } && message@
                    == "transport failed"@)
            },
            !(old(self).state is Open || old(self).state is Closing) ==> *final(self) == *old(self) && e is None,
    {
        match self.state {
            ConnectionState::Open | ConnectionState::Closing => {
                self.state = ConnectionState::Closed;
                self.running = false;
                Some(Event::Failure { message: String::from_str("transport failed") })
            },
            _ => None,
        }
    }

    /// A stop request: clears the running flag without blocking; an open
    /// session moves to `Closing` and waits for the transport to wind
    /// down, which `Disconnected` later confirms.
    pub fn stop(&mut self)
        ensures
            !final(self).running,
            final(self).state == if old(self).state is Open {
                ConnectionState::Closing
            } else {
                old(self).state
            },
    {
        self.running = false;
        if let ConnectionState::Open = self.state {
            self.state = ConnectionState::Closing;
        }
    }
}

} // verus!
