//! The publish/subscribe session with a device: its states, what a send publishes, and how
//! incoming telemetry is decoded.
use vstd::prelude::*;
use vstd::utf8::{decode_utf8, valid_utf8};
use crate::api::{payload_text, Message};
use crate::credential::DEVICE_PORT;
use crate::json::{json_accepts, parse_document};
use crate::text::{push_decimal, utf8_text, decimal};

verus! {

/// The seconds between two attempts to restore a dropped connection.
pub const RETRY_INTERVAL_SECS: u64 = 3;

/// The topic filter that a session subscribes to before it is ready: every channel the
/// device reports on.
pub const TELEMETRY_TOPIC: &'static str = "#";

/// Where a session stands.
#[derive(Debug, Clone, Copy, PartialEq, Eq, Structural)]
pub enum SessionState {
    Disconnected,
    Connecting,
    Connected,
    Reconnecting,
    Closed,
}

/// Why a session refused an operation.
#[derive(Debug, Clone, Copy, PartialEq, Eq, Structural)]
pub enum SessionError {
    /// The session has been closed.
    Closed,
    /// The session is not connected at the moment.
    NotConnected,
}

/// How to open the connection of a session.
#[derive(Debug)]
pub struct ConnectSettings {
    /// The broker's address, `ssl://<address>:8883`.
    pub server_uri: String,
    /// The device identity.
    pub user_name: String,
    /// The credential retrieved from the device.
    pub password: String,
    /// The seconds between attempts to restore a dropped connection.
    pub retry_interval_secs: u64,
    /// The device presents a self-signed certificate that cannot be verified; the connection
    /// to this device, and to it alone, accepts it unverified.
    pub accept_unverified_certificate: bool,
    /// How many incoming messages may wait to be consumed.
    pub event_buffer: usize,
}

/// A message to publish.
#[derive(Debug)]
pub struct Publication {
    pub topic: String,
    pub payload: String,
    /// The delivery quality: zero, no acknowledgement.
    pub qos: i32,
}

/// The broker address of a device.
pub open spec fn server_uri_of(address: Seq<char>) -> Seq<char> {
    "ssl://"@ + address + seq![':'] + decimal(DEVICE_PORT as nat)
}

/// Why a send in a given state is refused, if it is.
pub open spec fn send_refusal(state: SessionState) -> Option<SessionError> {
    match state {
        SessionState::Connected => None,
        SessionState::Closed => Some(SessionError::Closed),
        _ => Some(SessionError::NotConnected),
    }
}

/// The state after the connection is established; a closed session stays closed.
pub open spec fn on_connected(state: SessionState) -> SessionState {
    if state == SessionState::Closed {
        SessionState::Closed
    } else {
        SessionState::Connected
    }
}

/// The state after a connection attempt failed; a closed session stays closed.
pub open spec fn on_connect_failed(state: SessionState) -> SessionState {
    if state == SessionState::Closed {
        SessionState::Closed
    } else {
        SessionState::Disconnected
    }
}

/// The state after an established connection dropped: the transport reconnects on its own.
pub open spec fn on_connection_lost(state: SessionState) -> SessionState {
    if state == SessionState::Connected {
        SessionState::Reconnecting
    } else {
        state
    }
}

/// The state after closing: closed, whatever it was.
pub open spec fn on_close(state: SessionState) -> SessionState {
    SessionState::Closed
}

/// A session with one device.
pub struct Session {
    address: String,
    identity: String,
    credential: String,
    event_buffer: usize,
    state: SessionState,
}

impl Session {
    /// Where the session stands.
    pub closed spec fn state(&self) -> SessionState {
        self.state
    }

    /// The device's network address.
    pub closed spec fn address(&self) -> Seq<char> {
        self.address@
    }

    /// The device identity, the user name of the session.
    pub closed spec fn identity(&self) -> Seq<char> {
        self.identity@
    }

    /// The credential, the password of the session.
    pub closed spec fn credential(&self) -> Seq<char> {
        self.credential@
    }

    /// The size of the buffer of incoming messages.
    pub closed spec fn event_buffer(&self) -> usize {
        self.event_buffer
    }

    /// A session that is not connected yet.
    pub fn new(address: &str, identity: &str, credential: &str, event_buffer: usize) -> (r:
        Session)
        ensures
            r.state() == SessionState::Disconnected,
            r.address() == address@,
            r.identity() == identity@,
            r.credential() == credential@,
            r.event_buffer() == event_buffer,
    {
        Session {
            address: String::from_str(address),
            identity: String::from_str(identity),
            credential: String::from_str(credential),
            event_buffer,
            state: SessionState::Disconnected,
        }
    }

    /// Where the session stands.
    pub fn current_state(&self) -> (r: SessionState)
        ensures
            r == self.state(),
    {
        self.state
    }

    /// Starts connecting: how to open the connection. A closed session refuses.
    pub fn begin_connect(&mut self) -> (r: Result<ConnectSettings, SessionError>)
        ensures
            final(self).address() == old(self).address(),
            final(self).identity() == old(self).identity(),
            final(self).credential() == old(self).credential(),
            final(self).event_buffer() == old(self).event_buffer(),
            old(self).state() == SessionState::Closed ==> r == Err::<ConnectSettings, _>(
                SessionError::Closed,
            ) && final(self).state() == SessionState::Closed,
            old(self).state() != SessionState::Closed ==> r is Ok && final(self).state()
                == SessionState::Connecting,
            r is Ok ==> ({
                let s = r->Ok_0;
                &&& s.server_uri@ == server_uri_of(old(self).address())
                &&& s.user_name@ == old(self).identity()
                &&& s.password@ == old(self).credential()
                &&& s.retry_interval_secs == RETRY_INTERVAL_SECS
                &&& s.accept_unverified_certificate
                &&& s.event_buffer == old(self).event_buffer()
            }),
    {
        if self.state == SessionState::Closed {
            return Err(SessionError::Closed);
        }
        self.state = SessionState::Connecting;
        let mut server_uri = String::from_str("ssl://");
        server_uri.append(self.address.as_str());
        server_uri.append(":");
        push_decimal(&mut server_uri, DEVICE_PORT as u64);
        proof {
            reveal_strlit(":");
            assert(server_uri@ =~= server_uri_of(self.address@));
        }
        Ok(
            ConnectSettings {
                server_uri,
                user_name: self.identity.clone(),
                password: self.credential.clone(),
                retry_interval_secs: RETRY_INTERVAL_SECS,
                accept_unverified_certificate: true,
                event_buffer: self.event_buffer,
            },
        )
    }

    /// The connection is established, or re-established.
    pub fn connected(&mut self)
        ensures
            final(self).state() == on_connected(old(self).state()),
            final(self).address() == old(self).address(),
            final(self).identity() == old(self).identity(),
            final(self).credential() == old(self).credential(),
            final(self).event_buffer() == old(self).event_buffer(),
    {
        if self.state != SessionState::Closed {
            self.state = SessionState::Connected;
        }
    }

    /// The connection attempt failed.
    pub fn connect_failed(&mut self)
        ensures
            final(self).state() == on_connect_failed(old(self).state()),
            final(self).address() == old(self).address(),
            final(self).identity() == old(self).identity(),
            final(self).credential() == old(self).credential(),
            final(self).event_buffer() == old(self).event_buffer(),
    {
        if self.state != SessionState::Closed {
            self.state = SessionState::Disconnected;
        }
    }

    /// The established connection dropped; the transport retries it.
    pub fn connection_lost(&mut self)
        ensures
            final(self).state() == on_connection_lost(old(self).state()),
            final(self).address() == old(self).address(),
            final(self).identity() == old(self).identity(),
            final(self).credential() == old(self).credential(),
            final(self).event_buffer() == old(self).event_buffer(),
    {
        if self.state == SessionState::Connected {
            self.state = SessionState::Reconnecting;
        }
    }

    /// Closes the session; closing it again changes nothing.
    pub fn close(&mut self)
        ensures
            final(self).state() == on_close(old(self).state()),
            final(self).address() == old(self).address(),
            final(self).identity() == old(self).identity(),
            final(self).credential() == old(self).credential(),
            final(self).event_buffer() == old(self).event_buffer(),
    {
        self.state = SessionState::Closed;
    }

    /// What sending a command publishes: its JSON text on the command channel, at delivery
    /// quality zero. A closed session, or one not connected, refuses.
    pub fn send(&self, message: &Message) -> (r: Result<Publication, SessionError>)
        requires
            message is Cmd,
        ensures
            send_refusal(self.state()) is Some ==> r == Err::<Publication, _>(
                send_refusal(self.state())->0,
            ),
            send_refusal(self.state()) is None ==> r is Ok && r->Ok_0.topic@ == "cmd"@
                && r->Ok_0.payload@ == payload_text(*message) && r->Ok_0.qos == 0,
    {
        match self.state {
            SessionState::Connected => Ok(
                Publication {
                    topic: String::from_str(message.topic()),
                    payload: message.payload(),
                    qos: 0,
                },
            ),
            SessionState::Closed => Err(SessionError::Closed),
            _ => Err(SessionError::NotConnected),
        }
    }
}

/// Once a session is closed, whatever state it was in, a send is refused with the closed
/// error; closing again, or any news from the transport, leaves it closed.
pub proof fn lemma_send_after_close(state: SessionState)
    ensures
        send_refusal(on_close(state)) == Some(SessionError::Closed),
        on_close(on_close(state)) == on_close(state),
        on_connected(on_close(state)) == on_close(state),
        on_connect_failed(on_close(state)) == on_close(state),
        on_connection_lost(on_close(state)) == on_close(state),
{
}

/// A telemetry message: the channel it came on and its JSON document.
#[derive(Debug)]
pub struct IncomingEvent {
    pub topic: String,
    pub document: serde_json::Value,
}

/// Why an incoming message could not be decoded.
#[derive(Debug)]
pub enum DecodeError {
    /// The payload is not UTF-8.
    Utf8,
    /// The payload is not a JSON document.
    Json(serde_json::Error),
}

/// Builds an event from the parse of its payload.
pub fn event_from_document(
    topic: &str,
    parsed: Result<serde_json::Value, serde_json::Error>,
) -> (r: Result<IncomingEvent, DecodeError>)
    ensures
        r is Ok <==> parsed is Ok,
        r is Ok ==> r->Ok_0.topic@ == topic@,
        parsed is Ok ==> r is Ok && r->Ok_0.document == parsed->Ok_0,
        parsed is Err ==> r is Err && r->Err_0 is Json,
{
    match parsed {
        Ok(document) => Ok(IncomingEvent { topic: String::from_str(topic), document }),
        Err(e) => Err(DecodeError::Json(e)),
    }
}

/// Decodes an incoming message: its payload must be UTF-8 text holding one JSON document.
/// A failure concerns this message alone.
pub fn decode_event(topic: &str, payload: Vec<u8>) -> (r: Result<IncomingEvent, DecodeError>)
    ensures
        r is Ok <==> valid_utf8(payload@) && json_accepts(decode_utf8(payload@)),
        r is Ok ==> r->Ok_0.topic@ == topic@,
        !valid_utf8(payload@) ==> r is Err && r->Err_0 is Utf8,
        valid_utf8(payload@) && !json_accepts(decode_utf8(payload@)) ==> r is Err && r->Err_0 is Json,
{
    match utf8_text(payload) {
        None => Err(DecodeError::Utf8),
        Some(text) => event_from_document(topic, parse_document(text.as_str())),
    }
}

} // verus!
