//! The connection session: the life of the one connection to the server,
//! the address it is opened at, and what happens to what arrives on it.
//!
//! The session decides; the owner of the transport acts. Every call returns
//! the action that the owner has to take, and the owner reports back what
//! the transport did as a [`TransportEvent`].
//!
//! Two choices are made here. A request is sent only while the connection
//! is open: in every other state `send` rejects it, and nothing is queued.
//! An inbound frame that cannot be decoded is dropped without a trace.

use vstd::prelude::*;
use vstd::string::*;

verus! {

/// Lifecycle stage of the live connection.
#[derive(Clone, Copy, Debug, PartialEq, Eq, Hash, Structural)]
pub enum ConnectionState {
    Connecting,
    Open,
    Closing,
    Closed,
}

/// What the transport reports to the session.
#[derive(Debug, PartialEq, Eq)]
pub enum TransportEvent<Rx> {
    /// The connection is established.
    Opened,
    /// A frame arrived and was decoded.
    Message(Rx),
    /// A frame arrived that could not be decoded.
    Undecodable,
    /// The connection has ended: it was closed, it failed, or it timed out.
    Closed,
}

/// What the owner of the transport has to do after a call.
#[derive(Clone, Copy, Debug, PartialEq, Eq, Hash, Structural)]
pub enum SessionAction {
    /// Nothing.
    Nothing,
    /// Open a connection to the session's address.
    Connect,
    /// Close the connection.
    Disconnect,
    /// Hand the session's latest message to the stores.
    Dispatch,
}

/// Why a request was not sent.
#[derive(Clone, Copy, Debug, PartialEq, Eq, Hash, Structural)]
pub enum SendError {
    /// The connection is not open.
    NotOpen,
}

/// Where the page was loaded from.
#[derive(Debug, PartialEq, Eq)]
pub struct Address {
    pub hostname: String,
    pub port: Option<u16>,
}

/// The session of the one connection to the server.
#[derive(Debug, PartialEq, Eq)]
pub struct WebsocketContext<Rx> {
    /// The latest message that arrived, if one has.
    pub message: Option<Rx>,
    /// The state of the connection.
    pub ready_state: ConnectionState,
    /// The address of the server.
    pub url: String,
}

/// The state after a request to open the connection: only a closed
/// connection is opened.
pub open spec fn after_open(state: ConnectionState) -> ConnectionState {
    if state == ConnectionState::Closed {
        ConnectionState::Connecting
    } else {
        state
    }
}

/// What a request to open the connection asks of the transport.
pub open spec fn open_action(state: ConnectionState) -> SessionAction {
    if state == ConnectionState::Closed {
        SessionAction::Connect
    } else {
        SessionAction::Nothing
    }
}

/// The state after a request to close the connection: a connection that
/// is open or being opened is closed.
pub open spec fn after_close(state: ConnectionState) -> ConnectionState {
    if state == ConnectionState::Connecting || state == ConnectionState::Open {
        ConnectionState::Closing
    } else {
        state
    }
}

/// What a request to close the connection asks of the transport.
pub open spec fn close_action(state: ConnectionState) -> SessionAction {
    if state == ConnectionState::Connecting || state == ConnectionState::Open {
        SessionAction::Disconnect
    } else {
        SessionAction::Nothing
    }
}

/// The state after an event of the transport. The transport's word that the
/// connection is established counts only while it is being established;
/// its word that the connection has ended counts always; frames change
/// nothing.
pub open spec fn after_event<Rx>(
    state: ConnectionState,
    event: TransportEvent<Rx>,
) -> ConnectionState {
    match event {
        TransportEvent::Opened => if state == ConnectionState::Connecting {
            ConnectionState::Open
        } else {
            state
        },
        TransportEvent::Closed => ConnectionState::Closed,
        _ => state,
    }
}

/// The latest message after an event of the transport: a decoded frame
/// takes the place of the one before.
pub open spec fn message_after<Rx>(message: Option<Rx>, event: TransportEvent<Rx>) -> Option<Rx> {
    match event {
        TransportEvent::Message(payload) => Some(payload),
        _ => message,
    }
}

/// What an event of the transport asks of the owner: every decoded frame
/// is handed on, once.
pub open spec fn event_action<Rx>(event: TransportEvent<Rx>) -> SessionAction {
    match event {
        TransportEvent::Message(_) => SessionAction::Dispatch,
        _ => SessionAction::Nothing,
    }
}

/// A second request to open changes nothing and asks for nothing; so does a
/// second request to close. After a request to close the connection is
/// not open.
pub proof fn lemma_requests_are_idempotent(state: ConnectionState)
    ensures
        after_open(after_open(state)) == after_open(state),
        open_action(after_open(state)) == SessionAction::Nothing,
        after_close(after_close(state)) == after_close(state),
        close_action(after_close(state)) == SessionAction::Nothing,
        after_close(state) != ConnectionState::Open,
{
}

/// The session never asks for a connection by itself: whatever the
/// transport reports, it asks at most for a message to be handed on. A
/// connection that has ended stays closed until the owner asks to open it.
pub proof fn lemma_no_reconnect<Rx>(state: ConnectionState, event: TransportEvent<Rx>)
    ensures
        event_action(event) == SessionAction::Nothing || event_action(event)
            == SessionAction::Dispatch,
        event_action(event) == SessionAction::Dispatch <==> event is Message,
        state == ConnectionState::Closed ==> after_event(state, event) == ConnectionState::Closed,
        after_event(state, TransportEvent::<Rx>::Closed) == ConnectionState::Closed,
{
}

/// The latest message after a run of events, each taken in as it came.
pub open spec fn latest_after<Rx>(message: Option<Rx>, events: Seq<TransportEvent<Rx>>) -> Option<
    Rx,
>
    decreases events.len(),
{
    if events.len() == 0 {
        message
    } else {
        message_after(latest_after(message, events.drop_last()), events.last())
    }
}

/// The latest message is the payload of the last frame that was decoded,
/// and is what it was before as long as none was.
pub proof fn lemma_latest_message<Rx>(message: Option<Rx>, events: Seq<TransportEvent<Rx>>)
    ensures
        (forall|i: int| 0 <= i < events.len() ==> !((#[trigger] events[i]) is Message))
            ==> latest_after(message, events) == message,
        forall|i: int|
            #![trigger events[i]]
            0 <= i < events.len() && events[i] is Message && (forall|j: int|
                i < j < events.len() ==> !((#[trigger] events[j]) is Message)) ==> latest_after(
                message,
                events,
            ) == Some(events[i]->Message_0),
    decreases events.len(),
{
    if events.len() > 0 {
        let before = events.drop_last();
        lemma_latest_message(message, before);
        assert forall|i: int|
            #![trigger events[i]]
            0 <= i < events.len() && events[i] is Message && (forall|j: int|
                i < j < events.len() ==> !((#[trigger] events[j]) is Message)) implies latest_after(
            message,
            events,
        ) == Some(events[i]->Message_0) by {
            if i < before.len() {
                assert(before[i] == events[i]);
            }
        }
    }
}

/// The ten digits.
pub open spec fn digits() -> Seq<char> {
    seq!['0', '1', '2', '3', '4', '5', '6', '7', '8', '9']
}

/// A number in decimal, without leading zeros.
pub open spec fn decimal(n: nat) -> Seq<char>
    decreases n,
{
    if n < 10 {
        seq![digits()[n as int]]
    } else {
        decimal(n / 10).push(digits()[(n % 10) as int])
    }
}

/// The address of the server for the path `path`: with no port the secure
/// scheme and the host, with a port the plain scheme, the host and the
/// port.
pub open spec fn fix_wss_spec(
    path: Seq<char>,
    hostname: Seq<char>,
    port: Option<u16>,
) -> Seq<char> {
    match port {
        None => seq!['w', 's', 's', ':', '/', '/'] + hostname + path,
        Some(number) => seq!['w', 's', ':', '/', '/'] + hostname + seq![':'] + decimal(
            number as nat,
        ) + path,
    }
}

/// The text of one digit.
fn digit_text(digit: u16) -> (text: &'static str)
    requires
        digit < 10,
    ensures
        text@ == seq![digits()[digit as int]],
{
    proof {
        reveal_strlit("0");
        reveal_strlit("1");
        reveal_strlit("2");
        reveal_strlit("3");
        reveal_strlit("4");
        reveal_strlit("5");
        reveal_strlit("6");
        reveal_strlit("7");
        reveal_strlit("8");
        reveal_strlit("9");
    }
    match digit {
        0 => "0",
        1 => "1",
        2 => "2",
        3 => "3",
        4 => "4",
        5 => "5",
        6 => "6",
        7 => "7",
        8 => "8",
        _ => "9",
    }
}

/// Writes a number in decimal behind a text.
fn append_decimal(text: &mut String, number: u16)
    ensures
        final(text)@ == old(text)@ + decimal(number as nat),
    decreases number,
{
    if number >= 10 {
        append_decimal(text, number / 10);
    }
    text.append(digit_text(number % 10));
}

/// The address at which the server is reached for the path `url`, given
/// where the page was loaded from.
pub fn fix_wss(url: &str, address: &Address) -> (fixed: String)
    ensures
        fixed@ == fix_wss_spec(url@, address.hostname@, address.port),
{
    proof {
        reveal_strlit("wss://");
        reveal_strlit("ws://");
        reveal_strlit(":");
    }
    match address.port {
        None => {
            let mut fixed = String::from_str("wss://");
            fixed.append(address.hostname.as_str());
            fixed.append(url);
            fixed
        },
        Some(number) => {
            let mut fixed = String::from_str("ws://");
            fixed.append(address.hostname.as_str());
            fixed.append(":");
            append_decimal(&mut fixed, number);
            fixed.append(url);
            fixed
        },
    }
}

impl<Rx> WebsocketContext<Rx> {
    /// A session for the server at `url`: closed, with no message yet.
    pub fn new(url: String) -> (session: Self)
        ensures
            session.message is None,
            session.ready_state == ConnectionState::Closed,
            session.url == url,
    {
        WebsocketContext { message: None, ready_state: ConnectionState::Closed, url }
    }

    /// Asks for the connection to be opened. Only a closed connection is
    /// opened: in every other state nothing changes.
    pub fn open(&mut self) -> (action: SessionAction)
        ensures
            final(self).ready_state == after_open(old(self).ready_state),
            action == open_action(old(self).ready_state),
            final(self).message == old(self).message,
            final(self).url == old(self).url,
    {
        match self.ready_state {
            ConnectionState::Closed => {
                self.ready_state = ConnectionState::Connecting;
                SessionAction::Connect
            },
            _ => SessionAction::Nothing,
        }
    }

    /// Asks for the connection to be closed. Only a connection that is
    /// open or being opened is closed: in every other state nothing
    /// changes.
    pub fn close(&mut self) -> (action: SessionAction)
        ensures
            final(self).ready_state == after_close(old(self).ready_state),
            action == close_action(old(self).ready_state),
            final(self).message == old(self).message,
            final(self).url == old(self).url,
    {
        match self.ready_state {
            ConnectionState::Connecting | ConnectionState::Open => {
                self.ready_state = ConnectionState::Closing;
                SessionAction::Disconnect
            },
            _ => SessionAction::Nothing,
        }
    }

    /// Decides on a request to the server. While the connection is open
    /// the request comes back to be written to the transport; in every
    /// other state it is rejected.
    pub fn send<Tx>(&self, message: Tx) -> (outcome: Result<Tx, SendError>)
        ensures
            self.ready_state == ConnectionState::Open ==> outcome == Ok::<Tx, SendError>(message),
            self.ready_state != ConnectionState::Open ==> outcome == Err::<Tx, SendError>(
                SendError::NotOpen,
            ),
    {
        match self.ready_state {
            ConnectionState::Open => Ok(message),
            _ => Err(SendError::NotOpen),
        }
    }

    /// Takes in what the transport reports. A decoded frame becomes the
    /// latest message and is to be handed to the stores, in whatever state
    /// the connection is; a frame that could not be decoded is dropped.
    pub fn handle(&mut self, event: TransportEvent<Rx>) -> (action: SessionAction)
        ensures
            final(self).ready_state == after_event(old(self).ready_state, event),
            final(self).message == message_after(old(self).message, event),
            action == event_action(event),
            final(self).url == old(self).url,
    {
        match event {
            TransportEvent::Opened => {
                if self.ready_state == ConnectionState::Connecting {
                    self.ready_state = ConnectionState::Open;
                }
                SessionAction::Nothing
            },
            TransportEvent::Message(payload) => {
                self.message = Some(payload);
                SessionAction::Dispatch
            },
            TransportEvent::Undecodable => SessionAction::Nothing,
            TransportEvent::Closed => {
                self.ready_state = ConnectionState::Closed;
                SessionAction::Nothing
            },
        }
    }
}

/// Sets up the session for the path `url` and asks at once for the
/// connection: the session is connecting, and the owner of the transport
/// has to connect to its address.
pub fn provide_websocket<Rx>(url: &str, address: &Address) -> (provided: (
    WebsocketContext<Rx>,
    SessionAction,
))
    ensures
        provided.0.url@ == fix_wss_spec(url@, address.hostname@, address.port),
        provided.0.ready_state == ConnectionState::Connecting,
        provided.0.message is None,
        provided.1 == SessionAction::Connect,
{
    let mut session = WebsocketContext::new(fix_wss(url, address));
    let action = session.open();
    (session, action)
}

} // verus!
